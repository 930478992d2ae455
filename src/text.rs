//! Small operations on text: comparison, search, decimal numbers and paths.

use vstd::prelude::*;

verus! {

/// The texts of a list of strings.
pub open spec fn views(v: Seq<String>) -> Seq<Seq<char>> {
    v.map_values(|s: String| s@)
}

/// Whether two strings hold the same characters.
pub fn same_text(a: &str, b: &str) -> (r: bool)
    ensures
        r == (a@ == b@),
{
    let a_owned = String::from_str(a);
    let b_owned = String::from_str(b);
    a_owned == b_owned
}

/// `pattern` occurs in `text` starting at position `at`.
pub open spec fn occurs_at(text: Seq<char>, pattern: Seq<char>, at: int) -> bool {
    0 <= at && at + pattern.len() <= text.len() && text.subrange(at, at + pattern.len()) == pattern
}

/// `pattern` occurs somewhere in `text`.
pub open spec fn occurs_in(text: Seq<char>, pattern: Seq<char>) -> bool {
    exists|at: int| occurs_at(text, pattern, at)
}

/// Whether `pattern` occurs in `text`.
pub fn contains_text(text: &str, pattern: &str) -> (r: bool)
    ensures
        r == occurs_in(text@, pattern@),
{
    let n = text.unicode_len();
    let m = pattern.unicode_len();
    if m > n {
        assert forall|at: int| !occurs_at(text@, pattern@, at) by {}
        return false;
    }
    let mut at: usize = 0;
    while at <= n - m
        invariant
            n == text@.len(),
            m == pattern@.len(),
            m <= n,
            at <= n - m + 1,
            forall|k: int| 0 <= k < at ==> !occurs_at(text@, pattern@, k),
        decreases n - at,
    {
        let mut j: usize = 0;
        let mut matched = true;
        while j < m
            invariant
                n == text@.len(),
                m == pattern@.len(),
                at + m <= n,
                j <= m,
                matched == (forall|q: int| 0 <= q < j ==> text@[at + q] == pattern@[q]),
            decreases m - j,
        {
            if text.get_char(at + j) != pattern.get_char(j) {
                matched = false;
            }
            j += 1;
        }
        if matched {
            assert(text@.subrange(at as int, at + m) =~= pattern@);
            assert(occurs_at(text@, pattern@, at as int));
            return true;
        }
        assert(!occurs_at(text@, pattern@, at as int)) by {
            let q = choose|q: int| 0 <= q < m && text@[at + q] != pattern@[q];
            if text@.subrange(at as int, at + m) == pattern@ {
                assert(text@.subrange(at as int, at + m)[q] == text@[at + q]);
            }
        }
        at += 1;
    }
    assert forall|k: int| !occurs_at(text@, pattern@, k) by {}
    false
}

/// The digit character for `d` (0 to 9).
pub open spec fn digit_char(d: int) -> char {
    if d == 0 {
        '0'
    } else if d == 1 {
        '1'
    } else if d == 2 {
        '2'
    } else if d == 3 {
        '3'
    } else if d == 4 {
        '4'
    } else if d == 5 {
        '5'
    } else if d == 6 {
        '6'
    } else if d == 7 {
        '7'
    } else if d == 8 {
        '8'
    } else {
        '9'
    }
}

/// The decimal notation of `n`, without leading zeros.
pub open spec fn decimal(n: nat) -> Seq<char>
    decreases n,
{
    if n < 10 {
        seq![digit_char(n as int)]
    } else {
        decimal(n / 10).push(digit_char((n % 10) as int))
    }
}

pub(crate) fn digit_text(d: u64) -> (r: &'static str)
    requires
        d < 10,
    ensures
        r@ == seq![digit_char(d as int)],
{
    proof {
        reveal_strlit("0");
        reveal_strlit("1");
        reveal_strlit("2");
        reveal_strlit("3");
        reveal_strlit("4");
        reveal_strlit("5");
        reveal_strlit("6");
        reveal_strlit("7");
        reveal_strlit("8");
        reveal_strlit("9");
    }
    if d == 0 {
        "0"
    } else if d == 1 {
        "1"
    } else if d == 2 {
        "2"
    } else if d == 3 {
        "3"
    } else if d == 4 {
        "4"
    } else if d == 5 {
        "5"
    } else if d == 6 {
        "6"
    } else if d == 7 {
        "7"
    } else if d == 8 {
        "8"
    } else {
        "9"
    }
}

/// Appends the decimal notation of `n` to `s`.
pub fn push_decimal(s: &mut String, n: u64)
    ensures
        final(s)@ == old(s)@ + decimal(n as nat),
    decreases n,
{
    if n >= 10 {
        push_decimal(s, n / 10);
    }
    s.append(digit_text(n % 10));
    assert(final(s)@ =~= old(s)@ + decimal(n as nat));
}

/// The decimal notation of `n`.
pub fn decimal_text(n: u64) -> (r: String)
    ensures
        r@ == decimal(n as nat),
{
    let mut s = String::new();
    push_decimal(&mut s, n);
    assert(s@ =~= decimal(n as nat));
    s
}

/// `c` is one of the digits 0 to 9.
pub open spec fn is_digit(c: char) -> bool {
    '0' <= c <= '9'
}

/// The number that the digits `s` spell.
pub open spec fn digits_value(s: Seq<char>) -> int
    decreases s.len(),
{
    if s.len() == 0 {
        0
    } else {
        digits_value(s.drop_last()) * 10 + (s.last() as int - '0' as int)
    }
}

/// The digits of a number written in decimal, with an optional leading `+`.
pub open spec fn unsigned_digits(s: Seq<char>) -> Seq<char> {
    if s.len() > 0 && s[0] == '+' {
        s.drop_first()
    } else {
        s
    }
}

/// `s` is a decimal number: an optional `+` and at least one digit.
pub open spec fn is_decimal(s: Seq<char>) -> bool {
    unsigned_digits(s).len() > 0 && is_decimal_digits(unsigned_digits(s))
}

proof fn lemma_digits_value_grows(s: Seq<char>, i: int)
    requires
        0 <= i <= s.len(),
        forall|k: int| 0 <= k < s.len() ==> is_digit(#[trigger] s[k]),
    ensures
        digits_value(s.subrange(0, i)) <= digits_value(s),
        0 <= digits_value(s.subrange(0, i)),
    decreases s.len() - i,
{
    if i < s.len() {
        lemma_digits_value_grows(s, i + 1);
        assert(s.subrange(0, i + 1).drop_last() =~= s.subrange(0, i));
        lemma_digits_value_nonneg(s.subrange(0, i));
    } else {
        assert(s.subrange(0, i) =~= s);
        lemma_digits_value_nonneg(s);
    }
}

proof fn lemma_digits_value_nonneg(s: Seq<char>)
    requires
        forall|k: int| 0 <= k < s.len() ==> is_digit(#[trigger] s[k]),
    ensures
        0 <= digits_value(s),
    decreases s.len(),
{
    if s.len() > 0 {
        lemma_digits_value_nonneg(s.drop_last());
    }
}

/// The number that `s` writes in decimal, if it is one that fits a `u64`.
pub fn parse_u64(s: &str) -> (r: Option<u64>)
    ensures
        r is Some <==> is_decimal(s@) && digits_value(unsigned_digits(s@)) <= u64::MAX,
        r matches Some(v) ==> v as int == digits_value(unsigned_digits(s@)),
{
    let n = s.unicode_len();
    let mut start: usize = 0;
    if n > 0 && s.get_char(0) == '+' {
        start = 1;
    }
    let ghost d = unsigned_digits(s@);
    assert(d =~= s@.subrange(start as int, n as int));
    if start >= n {
        return None;
    }
    let mut value: u64 = 0;
    let mut i: usize = start;
    while i < n
        invariant
            n == s@.len(),
            start <= i <= n,
            d == s@.subrange(start as int, n as int),
            d == unsigned_digits(s@),
            forall|k: int| 0 <= k < i - start ==> is_digit(#[trigger] d[k]),
            value as int == digits_value(d.subrange(0, i - start)),
        decreases n - i,
    {
        let c = s.get_char(i);
        assert(d[i - start] == c);
        if c < '0' || c > '9' {
            assert(!is_digit(d[i - start]));
            assert(!is_decimal_digits(d));
            return None;
        }
        assert(is_digit(d[i - start]));
        let digit = (c as u32 - '0' as u32) as u64;
        assert(d.subrange(0, i - start + 1).drop_last() =~= d.subrange(0, i - start));
        match value.checked_mul(10) {
            None => {
                proof {
                    lemma_overflow_stays(d, i - start + 1);
                }
                return None;
            },
            Some(tens) => match tens.checked_add(digit) {
                None => {
                    proof {
                        lemma_overflow_stays(d, i - start + 1);
                    }
                    return None;
                },
                Some(next) => {
                    value = next;
                },
            },
        }
        i += 1;
    }
    assert(d.subrange(0, n - start) =~= d);
    Some(value)
}

proof fn lemma_overflow_stays(d: Seq<char>, i: int)
    requires
        0 < i <= d.len(),
        forall|k: int| 0 <= k < i ==> is_digit(#[trigger] d[k]),
        digits_value(d.subrange(0, i)) > u64::MAX,
    ensures
        !is_decimal_digits(d) || digits_value(d) > u64::MAX,
{
    if is_decimal_digits(d) {
        lemma_digits_value_grows(d, i);
    }
}

/// Every character of `d` is a digit.
pub open spec fn is_decimal_digits(d: Seq<char>) -> bool {
    forall|k: int| 0 <= k < d.len() ==> is_digit(#[trigger] d[k])
}

/// The pieces of a path between its separators, empty ones included.
pub open spec fn raw_segments(path: Seq<char>) -> Seq<Seq<char>>
    decreases path.len(),
{
    if path.len() == 0 {
        seq![Seq::empty()]
    } else {
        let r = raw_segments(path.drop_last());
        if path.last() == '/' {
            r.push(Seq::empty())
        } else {
            r.update(r.len() - 1, r.last().push(path.last()))
        }
    }
}

/// A piece at position `index` names a component: it is not empty, and it
/// is not a `.` after the first piece.
pub open spec fn is_component(piece: Seq<char>, index: int) -> bool {
    piece.len() > 0 && !(piece == seq!['.'] && index > 0)
}

/// The pieces of `pieces` that name components, in order.
pub open spec fn components_of(pieces: Seq<Seq<char>>) -> Seq<Seq<char>>
    decreases pieces.len(),
{
    if pieces.len() == 0 {
        Seq::empty()
    } else {
        let r = components_of(pieces.drop_last());
        if is_component(pieces.last(), pieces.len() - 1) {
            r.push(pieces.last())
        } else {
            r
        }
    }
}

/// The components of a path: repeated and trailing separators and inner
/// `.` components do not count.
pub open spec fn path_components(path: Seq<char>) -> Seq<Seq<char>> {
    components_of(raw_segments(path))
}

/// The path starts at the root.
pub open spec fn is_absolute(path: Seq<char>) -> bool {
    path.len() > 0 && path[0] == '/'
}

/// Two paths name the same place component by component.
pub open spec fn same_path(a: Seq<char>, b: Seq<char>) -> bool {
    is_absolute(a) == is_absolute(b) && path_components(a) == path_components(b)
}

/// The texts of a list of character vectors.
pub open spec fn char_views(v: Seq<Vec<char>>) -> Seq<Seq<char>> {
    v.map_values(|c: Vec<char>| c@)
}

fn is_component_exec(piece: &Vec<char>, index: usize) -> (r: bool)
    ensures
        r == is_component(piece@, index as int),
{
    if piece.len() == 0 {
        return false;
    }
    if piece.len() == 1 && piece[0] == '.' && index > 0 {
        assert(piece@ =~= seq!['.']);
        return false;
    }
    if piece.len() == 1 && piece[0] == '.' {
        return true;
    }
    assert(piece@ != seq!['.']) by {
        if piece@ == seq!['.'] {
            assert(piece@[0] == '.');
        }
    }
    true
}

/// The components of `path`.
pub fn components(path: &str) -> (r: Vec<Vec<char>>)
    ensures
        char_views(r@) == path_components(path@),
{
    let n = path.unicode_len();
    let mut done: Vec<Vec<char>> = Vec::new();
    let mut current: Vec<char> = Vec::new();
    let mut count: usize = 0;
    let ghost mut finished: Seq<Seq<char>> = Seq::empty();
    let mut i: usize = 0;
    while i < n
        invariant
            n == path@.len(),
            i <= n,
            count == finished.len(),
            count <= i,
            raw_segments(path@.subrange(0, i as int)) == finished.push(current@),
            char_views(done@) == components_of(finished),
        decreases n - i,
    {
        let c = path.get_char(i);
        let ghost prefix = path@.subrange(0, i + 1);
        assert(prefix.drop_last() =~= path@.subrange(0, i as int));
        if c == '/' {
            let keep = is_component_exec(&current, count);
            proof {
                let grown = finished.push(current@);
                assert(grown.drop_last() =~= finished);
                assert(raw_segments(prefix) == grown.push(Seq::empty()));
            }
            if keep {
                let ghost before = done@;
                done.push(current);
                assert(char_views(done@) =~= char_views(before).push(done@.last()@));
            }
            proof {
                finished = finished.push(current@);
            }
            current = Vec::new();
            count = count + 1;
            assert(current@ =~= Seq::<char>::empty());
        } else {
            let ghost before = current@;
            current.push(c);
            proof {
                let r = finished.push(before);
                assert(r.update(r.len() - 1, r.last().push(c)) =~= finished.push(current@));
            }
        }
        i += 1;
    }
    assert(path@.subrange(0, n as int) =~= path@);
    let keep = is_component_exec(&current, count);
    proof {
        let all = finished.push(current@);
        assert(all.drop_last() =~= finished);
    }
    if keep {
        let ghost before = done@;
        done.push(current);
        assert(char_views(done@) =~= char_views(before).push(done@.last()@));
    }
    done
}

fn same_chars(a: &Vec<char>, b: &Vec<char>) -> (r: bool)
    ensures
        r == (a@ == b@),
{
    if a.len() != b.len() {
        return false;
    }
    let mut i: usize = 0;
    while i < a.len()
        invariant
            a@.len() == b@.len(),
            i <= a@.len(),
            forall|k: int| 0 <= k < i ==> a@[k] == b@[k],
        decreases a.len() - i,
    {
        if a[i] != b[i] {
            return false;
        }
        i += 1;
    }
    assert(a@ =~= b@);
    true
}

/// Whether two paths name the same place component by component.
pub fn same_path_text(a: &str, b: &str) -> (r: bool)
    ensures
        r == same_path(a@, b@),
{
    let a_abs = a.unicode_len() > 0 && a.get_char(0) == '/';
    let b_abs = b.unicode_len() > 0 && b.get_char(0) == '/';
    if a_abs != b_abs {
        return false;
    }
    let ca = components(a);
    let cb = components(b);
    if ca.len() != cb.len() {
        assert(char_views(ca@).len() != char_views(cb@).len());
        return false;
    }
    let mut i: usize = 0;
    while i < ca.len()
        invariant
            ca@.len() == cb@.len(),
            i <= ca@.len(),
            forall|k: int| 0 <= k < i ==> ca@[k]@ == cb@[k]@,
            char_views(ca@) == path_components(a@),
            char_views(cb@) == path_components(b@),
            is_absolute(a@) == is_absolute(b@),
        decreases ca.len() - i,
    {
        if !same_chars(&ca[i], &cb[i]) {
            assert(char_views(ca@)[i as int] == ca@[i as int]@);
            assert(char_views(cb@)[i as int] == cb@[i as int]@);
            assert(char_views(ca@) != char_views(cb@));
            return false;
        }
        i += 1;
    }
    assert(char_views(ca@) =~= char_views(cb@));
    true
}

/// `rel` appended to the directory `base`, with one separator between them.
pub open spec fn joined(base: Seq<char>, rel: Seq<char>) -> Seq<char> {
    if base.len() == 0 {
        rel
    } else if base.last() == '/' {
        base + rel
    } else {
        base + seq!['/'] + rel
    }
}

/// Appends the relative path `rel` to the directory `base`.
pub fn join_path(base: &str, rel: &str) -> (r: String)
    ensures
        r@ == joined(base@, rel@),
{
    proof {
        reveal_strlit("/");
    }
    let n = base.unicode_len();
    if n == 0 {
        return String::from_str(rel);
    }
    let mut s = String::from_str(base);
    if base.get_char(n - 1) != '/' {
        s.append("/");
    }
    s.append(rel);
    s
}

} // verus!
