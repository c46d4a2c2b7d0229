//! What a context read while it was set up, and whether that is still so.
//!
//! A kept context may be used again only if what it read has not changed since. Reading and hashing
//! are done outside; each step here says what to look at next, and what the answer means.
use vstd::prelude::*;
use vstd::string::*;

use crate::text::same_text;

verus! {

/// A part of an index that a context read, with the hash of what it found there.
#[derive(Debug)]
pub struct RangeHash {
    pub namespace: String,
    pub tablet: String,
    pub table_name: String,
    pub hash: Vec<u8>,
}

/// What a table is now.
#[derive(Debug)]
pub struct TabletMetadata {
    pub namespace: String,
    pub table_name: String,
}

/// Why a read set is not as it should be.
#[derive(Debug)]
pub enum ReadSetError {
    ChangedNamespace(String),
    ChangedName(String),
    SearchDuringInit,
    NonSystemTable(String),
}

impl ReadSetError {
    pub open spec fn text(&self) -> Seq<char> {
        match self {
            ReadSetError::ChangedNamespace(tablet) => tablet@ + " changed namespace?"@,
            ReadSetError::ChangedName(tablet) => tablet@ + " changed name?"@,
            ReadSetError::SearchDuringInit => "searches can't be done during init"@,
            ReadSetError::NonSystemTable(table) => "context init read non-system table "@ + table@
                + "?"@,
        }
    }

    pub fn message(&self) -> (message: String)
        ensures
            message@ == self.text(),
    {
        let mut message = String::new();
        match self {
            ReadSetError::ChangedNamespace(tablet) => {
                message.append(tablet.as_str());
                message.append(" changed namespace?");
            },
            ReadSetError::ChangedName(tablet) => {
                message.append(tablet.as_str());
                message.append(" changed name?");
            },
            ReadSetError::SearchDuringInit => {
                message.append("searches can't be done during init");
            },
            ReadSetError::NonSystemTable(table) => {
                message.append("context init read non-system table ");
                message.append(table.as_str());
                message.append("?");
            },
        }
        assert(message@ =~= self.text());
        message
    }
}

/// What the check of a read set does next.
#[derive(Clone, Copy, Debug, PartialEq, Eq, Structural)]
pub enum ReadSetStep {
    /// Asks what the table of a range is now.
    LookUp(usize),
    /// Hashes a range again.
    Hash(usize),
    /// Everything is as it was: the saved reads are added to the transaction.
    Reusable,
    /// The context cannot be used again.
    Stale,
}

/// What is known of a table when its range is checked: whether it is still there, and what it is.
pub open spec fn lookup_step(range: RangeHash, at: int, tablet: Option<TabletMetadata>) -> Result<
    ReadSetStep,
    Seq<char>,
> {
    match tablet {
        None => Ok(ReadSetStep::Stale),
        Some(tablet) => if range.namespace@ != tablet.namespace@ {
            Err(range.tablet@ + " changed namespace?"@)
        } else if range.table_name@ != tablet.table_name@ {
            Err(range.tablet@ + " changed name?"@)
        } else {
            Ok(ReadSetStep::Hash(at as usize))
        },
    }
}

/// What follows when a range was hashed again. A range that is too large has no hash.
pub open spec fn hash_step(
    ranges: Seq<RangeHash>,
    at: int,
    hash: Option<Seq<u8>>,
) -> ReadSetStep {
    if hash != Some(ranges[at].hash@) {
        ReadSetStep::Stale
    } else if at + 1 < ranges.len() {
        ReadSetStep::LookUp((at + 1) as usize)
    } else {
        ReadSetStep::Reusable
    }
}

fn same_bytes(a: &Vec<u8>, b: &Vec<u8>) -> (same: bool)
    ensures
        same == (a@ == b@),
{
    if a.len() != b.len() {
        return false;
    }
    let mut i: usize = 0;
    while i < a.len()
        invariant
            i <= a.len(),
            a.len() == b.len(),
            forall|k: int| 0 <= k < i ==> #[trigger] a@[k] == b@[k],
        decreases a.len() - i,
    {
        if a[i] != b[i] {
            assert(a@[i as int] != b@[i as int]);
            return false;
        }
        i = i + 1;
    }
    assert(a@ =~= b@);
    true
}

/// The check whether a context can be used again.
pub struct ReadSetValidation {
    ranges: Vec<RangeHash>,
}

impl View for ReadSetValidation {
    type V = Seq<RangeHash>;

    closed spec fn view(&self) -> Seq<RangeHash> {
        self.ranges@
    }
}

impl ReadSetValidation {
    /// Begins with the first range. A context that read nothing can be used again.
    pub fn start(ranges: Vec<RangeHash>) -> (started: (ReadSetValidation, ReadSetStep))
        ensures
            started.0@ == ranges@,
            started.1 == (if ranges@.len() == 0 {
                ReadSetStep::Reusable
            } else {
                ReadSetStep::LookUp(0)
            }),
    {
        let step = if ranges.len() == 0 {
            ReadSetStep::Reusable
        } else {
            ReadSetStep::LookUp(0)
        };
        (ReadSetValidation { ranges }, step)
    }

    /// Takes in what the table of a range is now.
    pub fn looked_up(&self, at: usize, tablet: Option<&TabletMetadata>) -> (step: Result<
        ReadSetStep,
        ReadSetError,
    >)
        requires
            at < self@.len(),
        ensures
            match (step, lookup_step(self@[at as int], at as int, unreferenced(tablet))) {
                (Ok(step), Ok(expected)) => step == expected,
                (Err(error), Err(text)) => error.text() == text,
                _ => false,
            },
    {
        let range = &self.ranges[at];
        match tablet {
            None => Ok(ReadSetStep::Stale),
            Some(tablet) => {
                if !same_text(range.namespace.as_str(), tablet.namespace.as_str()) {
                    Err(ReadSetError::ChangedNamespace(range.tablet.clone()))
                } else if !same_text(range.table_name.as_str(), tablet.table_name.as_str()) {
                    Err(ReadSetError::ChangedName(range.tablet.clone()))
                } else {
                    Ok(ReadSetStep::Hash(at))
                }
            },
        }
    }

    /// Takes in the new hash of a range.
    pub fn hashed(&self, at: usize, hash: Option<&Vec<u8>>) -> (step: ReadSetStep)
        requires
            at < self@.len(),
        ensures
            step == hash_step(self@, at as int, viewed(hash)),
    {
        let same = match hash {
            Some(hash) => same_bytes(hash, &self.ranges[at].hash),
            None => false,
        };
        if !same {
            ReadSetStep::Stale
        } else if at < self.ranges.len() - 1 {
            ReadSetStep::LookUp(at + 1)
        } else {
            ReadSetStep::Reusable
        }
    }
}

pub open spec fn unreferenced(tablet: Option<&TabletMetadata>) -> Option<TabletMetadata> {
    match tablet {
        Some(tablet) => Some(*tablet),
        None => None,
    }
}

pub open spec fn viewed(hash: Option<&Vec<u8>>) -> Option<Seq<u8>> {
    match hash {
        Some(hash) => Some(hash@),
        None => None,
    }
}

/// What is learned of a range: what its table is, and its new hash.
pub struct RangeAnswer {
    pub tablet: Option<TabletMetadata>,
    pub hash: Option<Seq<u8>>,
}

/// How the check ends, from range `at` on, for what is learned of the ranges.
pub open spec fn validation_outcome(
    ranges: Seq<RangeHash>,
    answers: Seq<RangeAnswer>,
    at: int,
) -> Result<bool, Seq<char>>
    decreases ranges.len() - at,
{
    if at >= ranges.len() {
        Ok(true)
    } else {
        match lookup_step(ranges[at], at, answers[at].tablet) {
            Err(text) => Err(text),
            Ok(ReadSetStep::Stale) => Ok(false),
            Ok(_) => match hash_step(ranges, at, answers[at].hash) {
                ReadSetStep::Stale => Ok(false),
                _ => validation_outcome(ranges, answers, at + 1),
            },
        }
    }
}

/// A context is used again only if each range that it read has its old hash, in a table of the
/// same name and namespace.
pub proof fn reused_contexts_read_what_is_there(
    ranges: Seq<RangeHash>,
    answers: Seq<RangeAnswer>,
    at: int,
    i: int,
)
    requires
        0 <= at <= i < ranges.len(),
        validation_outcome(ranges, answers, at) == Ok::<bool, Seq<char>>(true),
    ensures
        answers[i].hash == Some(ranges[i].hash@),
        answers[i].tablet matches Some(tablet) && tablet.namespace@ == ranges[i].namespace@
            && tablet.table_name@ == ranges[i].table_name@,
    decreases i - at,
{
    if at < i {
        reused_contexts_read_what_is_there(ranges, answers, at + 1, i);
    }
}

/// What the capture of a read set does next.
#[derive(Clone, Copy, Debug, PartialEq, Eq, Structural)]
pub enum CaptureStep {
    /// Asks what the table of a read is.
    LookUp(usize),
    /// Hashes what was read.
    Hash(usize),
    /// The context can be kept, with what was captured.
    Captured,
    /// What was read has no hash: the context cannot be kept.
    NotCapturable,
}

/// The capture of what a context read.
pub struct ReadSetCapture {
    reads: usize,
    ranges: Vec<RangeHash>,
}

/// What a `ReadSetCapture` holds.
pub struct CaptureModel {
    pub reads: nat,
    pub ranges: Seq<RangeHash>,
}

impl View for ReadSetCapture {
    type V = CaptureModel;

    closed spec fn view(&self) -> CaptureModel {
        CaptureModel { reads: self.reads as nat, ranges: self.ranges@ }
    }
}

impl CaptureModel {
    /// What comes next when so many reads were captured.
    pub open spec fn next(self) -> CaptureStep {
        if self.ranges.len() < self.reads {
            CaptureStep::LookUp(self.ranges.len() as usize)
        } else {
            CaptureStep::Captured
        }
    }
}

impl ReadSetCapture {
    /// Begins with the first of the reads. A context may not search while it is set up.
    pub fn start(searches: usize, reads: usize) -> (started: Result<
        (ReadSetCapture, CaptureStep),
        ReadSetError,
    >)
        ensures
            match started {
                Ok((capture, step)) => {
                    &&& searches == 0
                    &&& capture@ == (CaptureModel {
                        reads: reads as nat,
                        ranges: Seq::empty(),
                    })
                    &&& step == capture@.next()
                },
                Err(error) => searches != 0 && error is SearchDuringInit,
            },
    {
        if searches != 0 {
            return Err(ReadSetError::SearchDuringInit);
        }
        let capture = ReadSetCapture { reads, ranges: Vec::new() };
        assert(capture@.ranges =~= Seq::empty());
        let step = if reads > 0 {
            CaptureStep::LookUp(0)
        } else {
            CaptureStep::Captured
        };
        Ok((capture, step))
    }

    /// Takes in what the table of the next read is. A context may read only system tables while it
    /// is set up.
    pub fn looked_up(&self, table_name: &str, is_system: bool) -> (step: Result<
        CaptureStep,
        ReadSetError,
    >)
        requires
            self@.ranges.len() < self@.reads,
        ensures
            match step {
                Ok(step) => is_system && step == CaptureStep::Hash(self@.ranges.len() as usize),
                Err(error) => !is_system && error.text() == "context init read non-system table "@
                    + table_name@ + "?"@,
            },
    {
        if is_system {
            Ok(CaptureStep::Hash(self.ranges.len()))
        } else {
            Err(ReadSetError::NonSystemTable(table_name.to_owned()))
        }
    }

    /// Takes in the hash of the next read.
    pub fn hashed(
        &mut self,
        namespace: String,
        tablet: String,
        table_name: String,
        hash: Option<Vec<u8>>,
    ) -> (step: CaptureStep)
        requires
            old(self)@.ranges.len() < old(self)@.reads,
        ensures
            match hash {
                Some(hash) => {
                    &&& final(self)@ == (CaptureModel {
                        ranges: old(self)@.ranges.push(
                            RangeHash { namespace, tablet, table_name, hash },
                        ),
                        ..old(self)@
                    })
                    &&& step == final(self)@.next()
                },
                None => step == CaptureStep::NotCapturable && final(self)@ == old(self)@,
            },
    {
        match hash {
            Some(hash) => {
                self.ranges.push(RangeHash { namespace, tablet, table_name, hash });
                if self.ranges.len() < self.reads {
                    CaptureStep::LookUp(self.ranges.len())
                } else {
                    CaptureStep::Captured
                }
            },
            None => CaptureStep::NotCapturable,
        }
    }

    /// What was captured.
    pub fn into_ranges(self) -> (ranges: Vec<RangeHash>)
        ensures
            ranges@ == self@.ranges,
    {
        self.ranges
    }
}

/// What was captured and has not changed since is found reusable.
pub proof fn unchanged_reads_are_reusable(
    ranges: Seq<RangeHash>,
    answers: Seq<RangeAnswer>,
    at: int,
)
    requires
        0 <= at,
        answers.len() == ranges.len(),
        forall|i: int|
            0 <= i < ranges.len() ==> (#[trigger] answers[i]).hash == Some(ranges[i].hash@)
                && answers[i].tablet is Some && answers[i].tablet->0.namespace@
                == ranges[i].namespace@ && answers[i].tablet->0.table_name@
                == ranges[i].table_name@,
    ensures
        validation_outcome(ranges, answers, at) == Ok::<bool, Seq<char>>(true),
    decreases ranges.len() - at,
{
    if at < ranges.len() {
        unchanged_reads_are_reusable(ranges, answers, at + 1);
        assert(answers[at].hash == Some(ranges[at].hash@));
    }
}

/// The check looks at every range, one after the other: a context is found reusable only after the
/// last range, and a range that is as it was leads to the next one.
pub proof fn every_range_is_looked_at(
    ranges: Seq<RangeHash>,
    at: int,
    tablet: Option<TabletMetadata>,
    hash: Option<Seq<u8>>,
)
    requires
        0 <= at < ranges.len() <= usize::MAX,
    ensures
        ({
            let step = hash_step(ranges, at, hash);
            &&& step is Reusable <==> hash == Some(ranges[at].hash@) && at + 1 == ranges.len()
            &&& step is LookUp <==> hash == Some(ranges[at].hash@) && at + 1 < ranges.len()
            &&& step matches ReadSetStep::LookUp(next) ==> next == at + 1
            &&& step is Stale <==> hash != Some(ranges[at].hash@)
        }),
        match lookup_step(ranges[at], at, tablet) {
            Ok(ReadSetStep::Hash(next)) => next == at && tablet is Some
                && tablet->0.namespace@ == ranges[at].namespace@ && tablet->0.table_name@
                == ranges[at].table_name@,
            Ok(ReadSetStep::Stale) => tablet is None,
            Ok(_) => false,
            Err(_) => tablet is Some && (tablet->0.namespace@ != ranges[at].namespace@
                || tablet->0.table_name@ != ranges[at].table_name@),
        },
{
}

/// The first range that is not as it was decides how the check ends. If its table is gone, or holds
/// something else, the context is not used again; a table that has another name or namespace is an
/// error, which tells of the table.
pub proof fn the_first_change_decides(
    ranges: Seq<RangeHash>,
    answers: Seq<RangeAnswer>,
    at: int,
    i: int,
)
    requires
        0 <= at <= i < ranges.len(),
        forall|k: int|
            at <= k < i ==> (#[trigger] answers[k]).hash == Some(ranges[k].hash@)
                && answers[k].tablet is Some && answers[k].tablet->0.namespace@
                == ranges[k].namespace@ && answers[k].tablet->0.table_name@
                == ranges[k].table_name@,
    ensures
        ({
            let outcome = validation_outcome(ranges, answers, at);
            let tablet = answers[i].tablet;
            &&& tablet is None ==> outcome == Ok::<bool, Seq<char>>(false)
            &&& tablet is Some && tablet->0.namespace@ != ranges[i].namespace@ ==> outcome == Err::<
                bool,
                Seq<char>,
            >(ranges[i].tablet@ + " changed namespace?"@)
            &&& tablet is Some && tablet->0.namespace@ == ranges[i].namespace@
                && tablet->0.table_name@ != ranges[i].table_name@ ==> outcome == Err::<
                bool,
                Seq<char>,
            >(ranges[i].tablet@ + " changed name?"@)
            &&& tablet is Some && tablet->0.namespace@ == ranges[i].namespace@
                && tablet->0.table_name@ == ranges[i].table_name@ && answers[i].hash != Some(
                ranges[i].hash@,
            ) ==> outcome == Ok::<bool, Seq<char>>(false)
        }),
    decreases i - at,
{
    if at < i {
        assert(answers[at].hash == Some(ranges[at].hash@));
        the_first_change_decides(ranges, answers, at + 1, i);
    }
}

/// A capture is complete when there is a hash of every read, and until then asks for the first read
/// of which there is none.
pub proof fn every_read_is_captured(capture: CaptureModel)
    requires
        capture.ranges.len() <= capture.reads <= usize::MAX,
    ensures
        capture.next() is Captured <==> capture.ranges.len() == capture.reads,
        capture.next() matches CaptureStep::LookUp(next) ==> next == capture.ranges.len()
            && capture.ranges.len() < capture.reads,
        capture.next() is Captured || capture.next() is LookUp,
{
}

} // verus!
