//! The coordinator. Every call into LHAPDF is an [`Operation`]: the caller makes the call,
//! reports what came back, and does what the returned [`Step`] says, until the operation is
//! over. A call that fails for want of a set, or a lookup that misses the index, leads to one
//! fetch of the set (or one refresh of the index) and one retry of the call, no more.
use crate::config::Config;
use crate::error::Error;
use crate::layout::{is_set_name, is_valid_set_name};
use crate::unmanaged;
use crate::unmanaged::is_index_entry;
use vstd::prelude::*;

verus! {

/// A call into LHAPDF.
#[derive(Debug, PartialEq, Eq)]
pub enum Call {
    /// Resolve a numeric ID with the index.
    LookupPdf(i32),
    /// Construct the member of a set.
    PdfWithSetnameAndMember(String, i32),
    /// Construct the metadata of a set.
    PdfsetNew(String),
    /// Set the verbosity level.
    SetVerbosity(i32),
    /// Read the verbosity level.
    Verbosity,
}

/// Where an operation stands.
#[derive(Debug, Clone, Copy, PartialEq, Eq)]
pub enum Phase {
    /// The call is being made for the first time.
    Calling,
    /// The set is being fetched, or the index refreshed.
    Acquiring,
    /// The call is being made for the second and last time.
    Retrying,
    /// The operation is over.
    Done,
}

/// One call into LHAPDF and where it stands.
#[derive(Debug, PartialEq, Eq)]
pub struct Operation {
    pub call: Call,
    pub phase: Phase,
}

/// What the caller reports to an operation.
#[derive(Debug, PartialEq, Eq)]
pub enum Reply {
    /// The index answered a lookup with a set name and a member number (an empty name and
    /// `-1` where it has no entry).
    Looked(String, i32),
    /// The call returned normally.
    Returned,
    /// The call failed with this message.
    Raised(String),
    /// The fetch or the index refresh that was asked for completed.
    Acquired,
    /// The fetch or the index refresh that was asked for failed.
    NotAcquired(Error),
}

/// What the caller has to do next.
#[derive(Debug, PartialEq, Eq)]
pub enum Step {
    /// Make the call (again) and report what came back.
    Invoke,
    /// Fetch the named set while holding its lock, and report whether that worked.
    Fetch(String),
    /// Download the index afresh while holding the index lock, and report whether that worked.
    RefreshIndex,
    /// The lookup is over: the set name and member number, or `None` for an unknown ID.
    Resolved(Option<(String, i32)>),
    /// The call is over: hand its last result to the caller unchanged.
    Return,
    /// The call is over and failed with this error.
    Abort(Error),
}

/// The message with which LHAPDF reports that it found no set of this name.
pub open spec fn missing_set_message(setname: Seq<char>) -> Seq<char> {
    "Info file not found for PDF set '"@ + setname + "'"@
}

/// The set that a call constructs, if it constructs one.
pub open spec fn set_of(call: Call) -> Option<String> {
    match call {
        Call::PdfWithSetnameAndMember(name, _) => Some(name),
        Call::PdfsetNew(name) => Some(name),
        _ => None,
    }
}

/// The answer of a lookup, given the index's raw answer.
pub open spec fn lookup_answer(setname: String, memberid: i32) -> Option<(String, i32)> {
    if is_index_entry(setname@, memberid) {
        Some((setname, memberid))
    } else {
        None
    }
}

/// The operation `op` moved to `phase`, together with the step that the caller takes.
pub open spec fn moved(op: Operation, phase: Phase, step: Step) -> (Operation, Step) {
    (Operation { call: op.call, phase }, step)
}

/// The answer of an operation to a reply that does not fit where it stands.
pub open spec fn out_of_order(op: Operation) -> (Operation, Step) {
    moved(op, Phase::Done, Step::Abort(Error::OutOfOrder))
}

/// What an operation does with a reply; `writable` tells whether a write directory is
/// configured.
pub open spec fn next(writable: bool, op: Operation, reply: Reply) -> (Operation, Step) {
    let lookup = op.call is LookupPdf;
    match op.phase {
        Phase::Calling => match reply {
            Reply::Looked(setname, memberid) => {
                if !lookup {
                    out_of_order(op)
                } else if is_index_entry(setname@, memberid) {
                    moved(op, Phase::Done, Step::Resolved(Some((setname, memberid))))
                } else if writable {
                    moved(op, Phase::Acquiring, Step::RefreshIndex)
                } else {
                    moved(op, Phase::Done, Step::Abort(Error::ReadOnly))
                }
            },
            Reply::Returned => {
                if lookup {
                    out_of_order(op)
                } else {
                    moved(op, Phase::Done, Step::Return)
                }
            },
            Reply::Raised(message) => {
                if lookup {
                    out_of_order(op)
                } else {
                    match set_of(op.call) {
                        Some(name) => {
                            if message@ != missing_set_message(name@) || !is_set_name(name@) {
                                moved(op, Phase::Done, Step::Return)
                            } else if writable {
                                moved(op, Phase::Acquiring, Step::Fetch(name))
                            } else {
                                moved(op, Phase::Done, Step::Abort(Error::ReadOnly))
                            }
                        },
                        None => moved(op, Phase::Done, Step::Return),
                    }
                }
            },
            _ => out_of_order(op),
        },
        Phase::Acquiring => match reply {
            Reply::Acquired => moved(op, Phase::Retrying, Step::Invoke),
            Reply::NotAcquired(e) => moved(op, Phase::Done, Step::Abort(e)),
            _ => out_of_order(op),
        },
        Phase::Retrying => match reply {
            Reply::Looked(setname, memberid) => {
                if lookup {
                    moved(op, Phase::Done, Step::Resolved(lookup_answer(setname, memberid)))
                } else {
                    out_of_order(op)
                }
            },
            Reply::Returned | Reply::Raised(_) => {
                if lookup {
                    out_of_order(op)
                } else {
                    moved(op, Phase::Done, Step::Return)
                }
            },
            _ => out_of_order(op),
        },
        Phase::Done => out_of_order(op),
    }
}

/// The message with which LHAPDF reports that it found no set named `setname`.
pub fn missing_set_message_for(setname: &str) -> (r: String)
    ensures
        r@ == missing_set_message(setname@),
{
    let mut message = String::from_str("Info file not found for PDF set '");
    message.append(setname);
    message.append("'");
    message
}

/// Whether `message` is LHAPDF's report that it found no set named `setname`.
pub fn is_missing_set(message: &str, setname: &str) -> (r: bool)
    ensures
        r == (message@ == missing_set_message(setname@)),
{
    let expected = missing_set_message_for(setname);
    let message = String::from_str(message);
    message == expected
}

impl Operation {
    /// A new operation for `call`: the caller makes the call and reports what came back.
    pub fn new(call: Call) -> (r: Operation)
        ensures
            r == Operation::new_spec(call),
    {
        Operation { call, phase: Phase::Calling }
    }

    /// A new operation for `call`, as a value.
    pub open spec fn new_spec(call: Call) -> Operation {
        Operation { call, phase: Phase::Calling }
    }

    /// Whether the operation is over.
    pub fn is_done(&self) -> (r: bool)
        ensures
            r == (self.phase == Phase::Done),
    {
        match self.phase {
            Phase::Done => true,
            _ => false,
        }
    }
}

/// The managed layer of one process: its configuration, and the decisions on every call into
/// LHAPDF. The caller holds it behind the one lock that serialises all calls into LHAPDF.
pub struct LhapdfData {
    pub config: Config,
}

impl LhapdfData {
    /// The managed layer with this configuration.
    pub fn new(config: Config) -> (r: LhapdfData)
        ensures
            r.config == config,
    {
        LhapdfData { config }
    }

    /// Interprets LHAPDF's raw answer to an index lookup.
    pub fn pdf_name_and_member_via_lhaid(&self, setname: String, memberid: i32) -> (r: Option<
        (String, i32),
    >)
        ensures
            r == lookup_answer(setname, memberid),
    {
        unmanaged::pdf_name_and_member_via_lhaid(setname, memberid)
    }

    /// Moves `op` on by `reply` and says what the caller does next.
    pub fn advance(&self, op: &mut Operation, reply: Reply) -> (step: Step)
        ensures
            (*final(op), step) == next(self.config.writable(), *old(op), reply),
    {
        let writable = self.config.lhapdf_data_path_write().is_some();
        let lookup = match op.call {
            Call::LookupPdf(_) => true,
            _ => false,
        };
        let (phase, step) = match op.phase {
            Phase::Calling => match reply {
                Reply::Looked(setname, memberid) => {
                    if !lookup {
                        (Phase::Done, Step::Abort(Error::OutOfOrder))
                    } else {
                        match self.pdf_name_and_member_via_lhaid(setname, memberid) {
                            Some(found) => (Phase::Done, Step::Resolved(Some(found))),
                            None => if writable {
                                (Phase::Acquiring, Step::RefreshIndex)
                            } else {
                                (Phase::Done, Step::Abort(Error::ReadOnly))
                            },
                        }
                    }
                },
                Reply::Returned => {
                    if lookup {
                        (Phase::Done, Step::Abort(Error::OutOfOrder))
                    } else {
                        (Phase::Done, Step::Return)
                    }
                },
                Reply::Raised(message) => {
                    if lookup {
                        (Phase::Done, Step::Abort(Error::OutOfOrder))
                    } else {
                        let missing = match &op.call {
                            Call::PdfWithSetnameAndMember(name, _) => if is_missing_set(
                                message.as_str(),
                                name.as_str(),
                            ) && is_valid_set_name(name.as_str()) {
                                Some(name.clone())
                            } else {
                                None
                            },
                            Call::PdfsetNew(name) => if is_missing_set(
                                message.as_str(),
                                name.as_str(),
                            ) && is_valid_set_name(name.as_str()) {
                                Some(name.clone())
                            } else {
                                None
                            },
                            _ => None,
                        };
                        match missing {
                            Some(name) => if writable {
                                (Phase::Acquiring, Step::Fetch(name))
                            } else {
                                (Phase::Done, Step::Abort(Error::ReadOnly))
                            },
                            None => (Phase::Done, Step::Return),
                        }
                    }
                },
                _ => (Phase::Done, Step::Abort(Error::OutOfOrder)),
            },
            Phase::Acquiring => match reply {
                Reply::Acquired => (Phase::Retrying, Step::Invoke),
                Reply::NotAcquired(e) => (Phase::Done, Step::Abort(e)),
                _ => (Phase::Done, Step::Abort(Error::OutOfOrder)),
            },
            Phase::Retrying => match reply {
                Reply::Looked(setname, memberid) => {
                    if lookup {
                        (Phase::Done, Step::Resolved(self.pdf_name_and_member_via_lhaid(setname, memberid)))
                    } else {
                        (Phase::Done, Step::Abort(Error::OutOfOrder))
                    }
                },
                Reply::Returned | Reply::Raised(_) => {
                    if lookup {
                        (Phase::Done, Step::Abort(Error::OutOfOrder))
                    } else {
                        (Phase::Done, Step::Return)
                    }
                },
                _ => (Phase::Done, Step::Abort(Error::OutOfOrder)),
            },
            Phase::Done => (Phase::Done, Step::Abort(Error::OutOfOrder)),
        };
        op.phase = phase;
        step
    }
}

/// Resolves a numeric ID to a set name and member number: the lookup operation for `lhaid`.
pub fn pdf_name_and_member_via_lhaid(lhaid: i32) -> (r: Operation)
    ensures
        r == Operation::new_spec(Call::LookupPdf(lhaid)),
{
    Operation::new(Call::LookupPdf(lhaid))
}

/// Constructs the member `member` of the set `setname`: the operation for that call.
pub fn pdf_with_setname_and_member(setname: &str, member: i32) -> (r: Operation)
    ensures
        r.phase == Phase::Calling,
        r.call matches Call::PdfWithSetnameAndMember(name, m) && name@ == setname@ && m == member,
{
    Operation::new(Call::PdfWithSetnameAndMember(String::from_str(setname), member))
}

/// Constructs the metadata of the set `setname`: the operation for that call.
pub fn pdfset_new(setname: &str) -> (r: Operation)
    ensures
        r.phase == Phase::Calling,
        r.call matches Call::PdfsetNew(name) && name@ == setname@,
{
    Operation::new(Call::PdfsetNew(String::from_str(setname)))
}

/// Sets LHAPDF's verbosity level: the operation for that call.
pub fn set_verbosity(verbosity: i32) -> (r: Operation)
    ensures
        r == Operation::new_spec(Call::SetVerbosity(verbosity)),
{
    Operation::new(Call::SetVerbosity(verbosity))
}

/// Reads LHAPDF's verbosity level: the operation for that call.
pub fn verbosity() -> (r: Operation)
    ensures
        r == Operation::new_spec(Call::Verbosity),
{
    Operation::new(Call::Verbosity)
}

/// The steps that an operation takes on a sequence of replies, one step for each reply.
pub open spec fn steps(writable: bool, op: Operation, replies: Seq<Reply>) -> Seq<Step>
    decreases replies.len(),
{
    if replies.len() == 0 {
        Seq::empty()
    } else {
        let (after, step) = next(writable, op, replies[0]);
        seq![step] + steps(writable, after, replies.drop_first())
    }
}

/// Whether a step acquires data: a fetch of a set or a refresh of the index.
pub open spec fn acquires(step: Step) -> bool {
    step is Fetch || step is RefreshIndex
}

/// How many of `steps` acquire data.
pub open spec fn acquisitions(steps: Seq<Step>) -> nat
    decreases steps.len(),
{
    if steps.len() == 0 {
        0
    } else {
        (if acquires(steps[0]) {
            1nat
        } else {
            0nat
        }) + acquisitions(steps.drop_first())
    }
}

/// Once an operation has taken its first reply it never acquires data again.
proof fn lemma_no_acquisition_after_calling(writable: bool, op: Operation, replies: Seq<Reply>)
    requires
        op.phase != Phase::Calling,
    ensures
        acquisitions(steps(writable, op, replies)) == 0,
    decreases replies.len(),
{
    if replies.len() > 0 {
        let (after, step) = next(writable, op, replies[0]);
        lemma_no_acquisition_after_calling(writable, after, replies.drop_first());
        assert(steps(writable, op, replies).drop_first() == steps(
            writable,
            after,
            replies.drop_first(),
        ));
    }
}

/// Whatever the replies, an operation fetches a set or refreshes the index at most once, and
/// only in answer to its first reply.
pub proof fn lemma_at_most_one_acquisition(writable: bool, op: Operation, replies: Seq<Reply>)
    requires
        op.phase == Phase::Calling,
    ensures
        acquisitions(steps(writable, op, replies)) <= 1,
        forall|i: int|
            1 <= i < replies.len() ==> !acquires(#[trigger] steps(writable, op, replies)[i]),
{
    if replies.len() > 0 {
        let (after, step) = next(writable, op, replies[0]);
        let rest = steps(writable, after, replies.drop_first());
        lemma_no_acquisition_after_calling(writable, after, replies.drop_first());
        lemma_steps_len(writable, after, replies.drop_first());
        assert(steps(writable, op, replies).drop_first() == rest);
        assert forall|i: int| 1 <= i < replies.len() implies !acquires(
            #[trigger] steps(writable, op, replies)[i],
        ) by {
            lemma_no_acquisition_in(rest, i - 1);
        }
    }
}

/// One step for each reply.
proof fn lemma_steps_len(writable: bool, op: Operation, replies: Seq<Reply>)
    ensures
        steps(writable, op, replies).len() == replies.len(),
    decreases replies.len(),
{
    if replies.len() > 0 {
        let (after, step) = next(writable, op, replies[0]);
        lemma_steps_len(writable, after, replies.drop_first());
    }
}

/// No step of a sequence without acquisitions acquires.
proof fn lemma_no_acquisition_in(s: Seq<Step>, i: int)
    requires
        acquisitions(s) == 0,
        0 <= i < s.len(),
    ensures
        !acquires(s[i]),
    decreases s.len(),
{
    if i > 0 {
        lemma_no_acquisition_in(s.drop_first(), i - 1);
    }
}

/// A lookup whose ID is in the cached index is answered with the index's entry at once,
/// without a refresh; two lookups of one ID against the same index give the same answer.
pub proof fn lemma_cached_lookup(
    writable: bool,
    lhaid: i32,
    setname: String,
    memberid: i32,
)
    requires
        is_index_entry(setname@, memberid),
    ensures
        steps(writable, Operation::new_spec(Call::LookupPdf(lhaid)), seq![Reply::Looked(setname, memberid)])
            == seq![Step::Resolved(Some((setname, memberid)))],
{
    let op = Operation::new_spec(Call::LookupPdf(lhaid));
    let replies = seq![Reply::Looked(setname, memberid)];
    let (after, step) = next(writable, op, replies[0]);
    assert(steps(writable, after, replies.drop_first()) =~= Seq::<Step>::empty());
    assert(steps(writable, op, replies) =~= seq![step]);
}

/// A lookup that misses the index refreshes it once and asks again; if the refreshed index
/// still misses the ID the answer is `None`, with no second refresh.
pub proof fn lemma_refresh_once(lhaid: i32, setname: String, memberid: i32)
    requires
        !is_index_entry(setname@, memberid),
    ensures
        steps(
            true,
            Operation::new_spec(Call::LookupPdf(lhaid)),
            seq![Reply::Looked(setname, memberid), Reply::Acquired, Reply::Looked(setname, memberid)],
        ) == seq![Step::RefreshIndex, Step::Invoke, Step::Resolved(None)],
{
    let op = Operation::new_spec(Call::LookupPdf(lhaid));
    let replies = seq![Reply::Looked(setname, memberid), Reply::Acquired, Reply::Looked(setname, memberid)];
    let r1 = replies.drop_first();
    let r2 = r1.drop_first();
    let (a1, s1) = next(true, op, replies[0]);
    let (a2, s2) = next(true, a1, r1[0]);
    let (a3, s3) = next(true, a2, r2[0]);
    assert(steps(true, a3, r2.drop_first()) =~= Seq::<Step>::empty());
    assert(steps(true, a2, r2) =~= seq![s3]);
    assert(steps(true, a1, r1) =~= seq![s2, s3]);
    assert(steps(true, op, replies) =~= seq![s1, s2, s3]);
}

/// In read-only mode a call that fails for want of a set ends with the read-only error, and
/// nothing is fetched; with a write directory the set is fetched.
pub proof fn lemma_read_only(call: Call, message: String)
    requires
        set_of(call) matches Some(name) && message@ == missing_set_message(name@) && is_set_name(
            name@,
        ),
    ensures
        next(false, Operation::new_spec(call), Reply::Raised(message)).1 == Step::Abort(Error::ReadOnly),
        next(true, Operation::new_spec(call), Reply::Raised(message)).1 == Step::Fetch(
            set_of(call).unwrap(),
        ),
{
}

/// In read-only mode no operation ever fetches a set or refreshes the index, whatever the
/// replies: nothing goes to the network.
pub proof fn lemma_read_only_acquires_nothing(op: Operation, replies: Seq<Reply>)
    ensures
        acquisitions(steps(false, op, replies)) == 0,
    decreases replies.len(),
{
    if replies.len() > 0 {
        let (after, step) = next(false, op, replies[0]);
        lemma_read_only_acquires_nothing(after, replies.drop_first());
        assert(steps(false, op, replies).drop_first() == steps(false, after, replies.drop_first()));
    }
}

/// How many replies an operation in `phase` takes at most before it is over.
pub open spec fn replies_left(phase: Phase) -> nat {
    match phase {
        Phase::Calling => 3,
        Phase::Acquiring => 2,
        Phase::Retrying => 1,
        Phase::Done => 0,
    }
}

/// Every reply brings an operation that is not over closer to its end, and one that is over
/// stays over: no operation loops, and each is over after at most three replies.
pub proof fn lemma_progress(writable: bool, op: Operation, reply: Reply)
    ensures
        op.phase != Phase::Done ==> replies_left(next(writable, op, reply).0.phase) < replies_left(
            op.phase,
        ),
        op.phase == Phase::Done ==> next(writable, op, reply).0.phase == Phase::Done,
        next(writable, op, reply).0.call == op.call,
{
}

} // verus!
