//! Decisions of a snapshot transfer: the checks before it, the two commands
//! that are piped into each other, and how their outcomes are attributed.

use vstd::prelude::*;
use crate::snapshot::Snapshot;
use crate::text::views;

verus! {

/// Why syncing a snapshot failed.
#[derive(Clone, Debug)]
pub enum SyncSnapshotError {
    /// The sending (producer) process could not run or failed.
    BtrfSendFailed(String),
    /// The receiving (consumer) process could not run or failed.
    BtrfRecvFailed(String),
    /// Copying the stream from producer to consumer failed.
    PipeFailed(String),
    /// The destination directory does not exist.
    DestinationNotFound(String),
    /// The parent snapshot, by its number, is missing or not synced.
    AnchorNotSynced(u64),
}

/// The command lines of a transfer: the producer writes the snapshot stream
/// that the consumer reads.
#[derive(Clone, Debug)]
pub struct TransferCommands {
    pub producer: Vec<String>,
    pub consumer: Vec<String>,
}

/// The producer's command line.
pub open spec fn producer_line(snapshot_path: Seq<char>, parent_path: Option<Seq<char>>, verbose: bool) -> Seq<Seq<char>> {
    seq!["sudo"@, "btrfs"@] + (if verbose {
        seq!["-v"@]
    } else {
        Seq::empty()
    }) + seq!["send"@] + (match parent_path {
        Some(p) => seq!["-p"@, p],
        None => Seq::empty(),
    }) + seq![snapshot_path]
}

/// The consumer's command line.
pub open spec fn consumer_line(destination: Seq<char>, verbose: bool) -> Seq<Seq<char>> {
    seq!["sudo"@, "btrfs"@] + (if verbose {
        seq!["-v"@]
    } else {
        Seq::empty()
    }) + seq!["receive"@, destination]
}

/// A parent, if one is given, cannot serve: its files are missing or it is
/// not synced.
pub open spec fn parent_unusable(parent: Option<&Snapshot>, parent_present: bool) -> bool {
    match parent {
        Some(p) => !parent_present || !p.synced_spec(),
        None => false,
    }
}

fn push_str(v: &mut Vec<String>, s: &str)
    ensures
        views(final(v)@) == views(old(v)@).push(s@),
{
    v.push(String::from_str(s));
    assert(views(final(v)@) =~= views(old(v)@).push(s@));
}

/// Checks what must hold before a transfer of `snapshot` to `destination`,
/// optionally as a delta against `parent`, and gives the command lines.
/// `parent_present` and `destination_present` say whether the parent's files
/// and the destination directory exist; the `verbose` flags ask the tools for
/// diagnostics. On an error nothing is to be run.
pub fn prepare_transfer(
    snapshot: &Snapshot,
    parent: Option<&Snapshot>,
    parent_present: bool,
    destination: &str,
    destination_present: bool,
    send_verbose: bool,
    receive_verbose: bool,
) -> (r: Result<TransferCommands, SyncSnapshotError>)
    ensures
        parent_unusable(parent, parent_present) ==> (r matches Err(SyncSnapshotError::AnchorNotSynced(id))
            && id == parent->0.id),
        !parent_unusable(parent, parent_present) && !destination_present ==> (r matches Err(
            SyncSnapshotError::DestinationNotFound(d),
        ) && d@ == destination@),
        !parent_unusable(parent, parent_present) && destination_present ==> (r matches Ok(c) && views(
            c.producer@,
        ) == producer_line(
            snapshot.path_spec(),
            match parent {
                Some(p) => Some(p.path_spec()),
                None => None,
            },
            send_verbose,
        ) && views(c.consumer@) == consumer_line(destination@, receive_verbose)),
{
    if let Some(p) = parent {
        if !parent_present || !p.is_synced() {
            return Err(SyncSnapshotError::AnchorNotSynced(p.id));
        }
    }
    if !destination_present {
        return Err(SyncSnapshotError::DestinationNotFound(String::from_str(destination)));
    }
    let mut producer: Vec<String> = Vec::new();
    push_str(&mut producer, "sudo");
    push_str(&mut producer, "btrfs");
    if send_verbose {
        push_str(&mut producer, "-v");
    }
    push_str(&mut producer, "send");
    if let Some(p) = parent {
        push_str(&mut producer, "-p");
        let parent_path = p.snapshot_path();
        push_str(&mut producer, parent_path.as_str());
    }
    let snapshot_path = snapshot.snapshot_path();
    push_str(&mut producer, snapshot_path.as_str());
    let mut consumer: Vec<String> = Vec::new();
    push_str(&mut consumer, "sudo");
    push_str(&mut consumer, "btrfs");
    if receive_verbose {
        push_str(&mut consumer, "-v");
    }
    push_str(&mut consumer, "receive");
    push_str(&mut consumer, destination);
    proof {
        assert(views(producer@) =~= producer_line(
            snapshot.path_spec(),
            match parent {
                Some(p) => Some(p.path_spec()),
                None => None,
            },
            send_verbose,
        ));
        assert(views(consumer@) =~= consumer_line(destination@, receive_verbose));
    }
    Ok(TransferCommands { producer, consumer })
}

impl Snapshot {
    /// A full transfer of the snapshot to `destination`: checks and command
    /// lines, as `prepare_transfer` gives them without a parent.
    pub fn sync(&self, destination: &str, destination_present: bool, send_verbose: bool, receive_verbose: bool) -> (r:
        Result<TransferCommands, SyncSnapshotError>)
        ensures
            !destination_present ==> (r matches Err(SyncSnapshotError::DestinationNotFound(d)) && d@
                == destination@),
            destination_present ==> (r matches Ok(c) && views(c.producer@) == producer_line(
                self.path_spec(),
                None,
                send_verbose,
            ) && views(c.consumer@) == consumer_line(destination@, receive_verbose)),
    {
        prepare_transfer(self, None, false, destination, destination_present, send_verbose, receive_verbose)
    }

    /// A transfer of the snapshot to `destination` as a delta against
    /// `anchor`, which must be synced and present (`anchor_present`).
    pub fn sync_incrementally(
        &self,
        anchor: &Snapshot,
        anchor_present: bool,
        destination: &str,
        destination_present: bool,
        send_verbose: bool,
        receive_verbose: bool,
    ) -> (r: Result<TransferCommands, SyncSnapshotError>)
        ensures
            !anchor_present || !anchor.synced_spec() ==> (r matches Err(SyncSnapshotError::AnchorNotSynced(id))
                && id == anchor.id),
            anchor_present && anchor.synced_spec() && !destination_present ==> (r matches Err(
                SyncSnapshotError::DestinationNotFound(d),
            ) && d@ == destination@),
            anchor_present && anchor.synced_spec() && destination_present ==> (r matches Ok(c) && views(
                c.producer@,
            ) == producer_line(self.path_spec(), Some(anchor.path_spec()), send_verbose) && views(c.consumer@)
                == consumer_line(destination@, receive_verbose)),
    {
        prepare_transfer(self, Some(anchor), anchor_present, destination, destination_present, send_verbose, receive_verbose)
    }
}

/// Where a running transfer stands.
#[derive(Debug)]
pub enum TransferStage {
    /// The stream is being copied from producer to consumer.
    Copying,
    /// The copy is done and the input of the consumer closed; the producer's
    /// exit is awaited.
    AwaitingProducer,
    /// The producer succeeded; the consumer's exit is awaited.
    AwaitingConsumer,
    /// The transfer is over, with this outcome.
    Finished(Result<(), SyncSnapshotError>),
}

/// What was observed of a running transfer. An `Err` carries the reason.
#[derive(Debug)]
pub enum TransferEvent {
    /// The copy reached the end of the stream, or failed.
    Copied(Result<(), String>),
    /// The producer exited, successfully or not.
    ProducerExited(Result<(), String>),
    /// The consumer exited, successfully or not.
    ConsumerExited(Result<(), String>),
}

/// `event` is the one that `stage` waits for.
pub open spec fn awaited(stage: TransferStage, event: TransferEvent) -> bool {
    match (stage, event) {
        (TransferStage::Copying, TransferEvent::Copied(_)) => true,
        (TransferStage::AwaitingProducer, TransferEvent::ProducerExited(_)) => true,
        (TransferStage::AwaitingConsumer, TransferEvent::ConsumerExited(_)) => true,
        _ => false,
    }
}

/// The stage after `event` was observed in `stage`: a failure ends the
/// transfer with the error of the step that failed; the copy comes first,
/// then the producer's exit, then the consumer's.
pub fn next_stage(stage: TransferStage, event: TransferEvent) -> (r: TransferStage)
    requires
        awaited(stage, event),
    ensures
        event matches TransferEvent::Copied(Ok(_)) ==> r is AwaitingProducer,
        event matches TransferEvent::Copied(Err(e)) ==> (r matches TransferStage::Finished(
            Err(SyncSnapshotError::PipeFailed(m)),
        ) && m@ == e@),
        event matches TransferEvent::ProducerExited(Ok(_)) ==> r is AwaitingConsumer,
        event matches TransferEvent::ProducerExited(Err(e)) ==> (r matches TransferStage::Finished(
            Err(SyncSnapshotError::BtrfSendFailed(m)),
        ) && m@ == e@),
        event matches TransferEvent::ConsumerExited(Ok(_)) ==> (r matches TransferStage::Finished(
            Ok(_),
        )),
        event matches TransferEvent::ConsumerExited(Err(e)) ==> (r matches TransferStage::Finished(
            Err(SyncSnapshotError::BtrfRecvFailed(m)),
        ) && m@ == e@),
{
    match event {
        TransferEvent::Copied(Ok(())) => TransferStage::AwaitingProducer,
        TransferEvent::Copied(Err(e)) => TransferStage::Finished(Err(SyncSnapshotError::PipeFailed(e))),
        TransferEvent::ProducerExited(Ok(())) => TransferStage::AwaitingConsumer,
        TransferEvent::ProducerExited(Err(e)) => TransferStage::Finished(
            Err(SyncSnapshotError::BtrfSendFailed(e)),
        ),
        TransferEvent::ConsumerExited(Ok(())) => TransferStage::Finished(Ok(())),
        TransferEvent::ConsumerExited(Err(e)) => TransferStage::Finished(
            Err(SyncSnapshotError::BtrfRecvFailed(e)),
        ),
    }
}

} // verus!
