//! One attempt of a resumable transfer: where it starts, what it asks for,
//! how the destination is opened, and how far it has come.

use vstd::prelude::*;
use crate::retry::StatusClass;
use crate::retry::is_transient_status;
use crate::chunk::concat;

verus! {

/// What is to be transferred, and how.
#[derive(Debug)]
pub struct TransferTask {
    /// The source URL.
    pub url: String,
    /// The destination path.
    pub destination: String,
    /// The size of the writes, in bytes; zero means write-through.
    pub chunk_size: usize,
    /// Whether an attempt continues a destination that is already there.
    pub resume: bool,
}

/// How the destination is opened.
#[derive(Clone, Copy, Debug, PartialEq, Eq, Structural)]
pub enum WriteMode {
    /// Create the destination, or truncate it.
    Create,
    /// Append to what the destination holds.
    Append,
}

/// The two acceptable kinds of response.
#[derive(Clone, Copy, Debug, PartialEq, Eq, Structural)]
pub enum ContentKind {
    /// The whole resource ("OK").
    Full,
    /// The rest of the resource from the offset asked for ("Partial
    /// Content").
    Partial,
}

/// What one attempt asks for and how it opens the destination.
#[derive(Clone, Copy, Debug, PartialEq, Eq, Structural)]
pub struct AttemptPlan {
    /// The bytes already on disk that the attempt builds on.
    pub offset: u64,
    /// The first byte of the range to ask for, or none for an
    /// unconditional request.
    pub range_from: Option<u64>,
    /// How the destination is opened.
    pub mode: WriteMode,
}

/// The bytes of the destination that an attempt builds on: none without
/// resumption or without a destination, else its size.
pub open spec fn start_offset(resume: bool, existing_size: Option<u64>) -> u64 {
    if resume && existing_size is Some {
        existing_size.unwrap()
    } else {
        0
    }
}

/// The plan of an attempt as a function of the resume flag and the size of
/// the destination, if there is one.
pub open spec fn plan_spec(resume: bool, existing_size: Option<u64>) -> AttemptPlan {
    let offset = start_offset(resume, existing_size);
    if offset > 0 {
        AttemptPlan { offset, range_from: Some(offset), mode: WriteMode::Append }
    } else {
        AttemptPlan { offset: 0, range_from: None, mode: WriteMode::Create }
    }
}

/// Plans one attempt from the resume flag and the present size of the
/// destination (`None` where it does not exist).
pub fn plan_attempt(resume: bool, existing_size: Option<u64>) -> (plan: AttemptPlan)
    ensures
        plan == plan_spec(resume, existing_size),
        plan.mode == WriteMode::Append <==> plan.offset > 0,
        plan.range_from is Some <==> plan.offset > 0,
{
    let offset: u64 = match existing_size {
        Some(size) => if resume {
            size
        } else {
            0
        },
        None => 0,
    };
    if offset > 0 {
        AttemptPlan { offset, range_from: Some(offset), mode: WriteMode::Append }
    } else {
        AttemptPlan { offset: 0, range_from: None, mode: WriteMode::Create }
    }
}

impl TransferTask {
    /// Plans one attempt from the present size of the destination (`None`
    /// where it does not exist).
    pub fn plan(&self, existing_size: Option<u64>) -> (plan: AttemptPlan)
        ensures
            plan == plan_spec(self.resume, existing_size),
    {
        plan_attempt(self.resume, existing_size)
    }
}

/// The decimal digits of a number, most significant first, in ASCII.
pub open spec fn decimal(n: nat) -> Seq<u8>
    decreases n,
{
    if n < 10 {
        seq![(48 + n) as u8]
    } else {
        decimal(n / 10).push((48 + n % 10) as u8)
    }
}

/// The value of a range header that asks for everything from `offset` on:
/// the word `bytes`, an equals sign, the offset in decimal and a hyphen.
pub open spec fn range_value_spec(offset: u64) -> Seq<u8> {
    seq![98u8, 121u8, 116u8, 101u8, 115u8, 61u8] + decimal(offset as nat) + seq![45u8]
}

/// The decimal digits of `n`, most significant first, in ASCII.
pub fn decimal_digits(n: u64) -> (digits: Vec<u8>)
    ensures
        digits@ == decimal(n as nat),
    decreases n,
{
    if n < 10 {
        let d: u8 = (48 + n) as u8;
        let mut digits: Vec<u8> = Vec::new();
        digits.push(d);
        proof {
            assert(digits@ =~= seq![(48 + n) as u8]);
        }
        digits
    } else {
        let mut digits = decimal_digits(n / 10);
        let d: u8 = (48 + n % 10) as u8;
        digits.push(d);
        digits
    }
}

/// The value of the range header for an attempt that resumes at `offset`.
pub fn range_value(offset: u64) -> (value: Vec<u8>)
    ensures
        value@ == range_value_spec(offset),
{
    let mut value: Vec<u8> = Vec::new();
    value.push(98u8);
    value.push(121u8);
    value.push(116u8);
    value.push(101u8);
    value.push(115u8);
    value.push(61u8);
    let mut digits = decimal_digits(offset);
    value.append(&mut digits);
    value.push(45u8);
    proof {
        assert(value@ =~= range_value_spec(offset));
    }
    value
}

/// Whether every byte is an ASCII digit.
pub open spec fn all_digits(text: Seq<u8>) -> bool {
    forall|i: int| 0 <= i < text.len() ==> 48 <= #[trigger] text[i] <= 57
}

/// The number that a string of decimal digits denotes.
pub open spec fn digits_value(digits: Seq<u8>) -> nat
    decreases digits.len(),
{
    if digits.len() == 0 {
        0
    } else {
        (digits_value(digits.drop_last()) * 10 + (digits.last() - 48)) as nat
    }
}

/// The digits of a length as a header declares it: a plus sign may stand
/// before them.
pub open spec fn unsigned_part(text: Seq<u8>) -> Seq<u8> {
    if text.len() > 0 && text[0] == 43 {
        text.subrange(1, text.len() as int)
    } else {
        text
    }
}

/// The length that a header value declares: the number its digits
/// denote, if it consists of at least one digit and nothing else and the
/// number fits 64 bits.
pub open spec fn declared_length_spec(text: Seq<u8>) -> Option<u64> {
    let digits = unsigned_part(text);
    if digits.len() > 0 && all_digits(digits) && digits_value(digits) <= u64::MAX {
        Some(digits_value(digits) as u64)
    } else {
        None
    }
}

/// A number that begins with the digits of another is no smaller.
pub proof fn lemma_prefix_value(digits: Seq<u8>, k: int)
    requires
        all_digits(digits),
        0 <= k <= digits.len(),
    ensures
        digits_value(digits.subrange(0, k)) <= digits_value(digits),
    decreases digits.len() - k,
{
    if k == digits.len() {
        assert(digits.subrange(0, k) =~= digits);
    } else {
        lemma_prefix_value(digits, k + 1);
        let longer = digits.subrange(0, k + 1);
        assert(longer.drop_last() =~= digits.subrange(0, k));
        assert(longer.last() == digits[k]);
    }
}

/// Reads the length that a header value declares.
pub fn declared_length(text: &[u8]) -> (length: Option<u64>)
    ensures
        length == declared_length_spec(text@),
{
    let n: usize = text.len();
    let start: usize = if n > 0 && text[0] == 43 {
        1
    } else {
        0
    };
    if start == n {
        return None;
    }
    let ghost digits = unsigned_part(text@);
    let mut value: u64 = 0;
    let mut i: usize = start;
    proof {
        assert(digits.subrange(0, 0) =~= Seq::<u8>::empty());
    }
    while i < n
        invariant
            start <= i <= n,
            n == text@.len(),
            digits == unsigned_part(text@),
            digits.len() == n - start,
            forall|j: int| 0 <= j < digits.len() ==> digits[j] == text@[j + start],
            all_digits(digits.subrange(0, i - start)),
            value == digits_value(digits.subrange(0, i - start)),
        decreases n - i,
    {
        let byte: u8 = text[i];
        let ghost upto = digits.subrange(0, i - start + 1);
        proof {
            assert(upto.drop_last() =~= digits.subrange(0, i - start));
            assert(upto.last() == byte);
        }
        if byte < 48 || byte > 57 {
            proof {
                assert(digits[i - start] == byte);
            }
            return None;
        }
        let digit: u64 = (byte - 48) as u64;
        if value > (u64::MAX - digit) / 10 {
            proof {
                assert(digits_value(upto) > u64::MAX) by (nonlinear_arith)
                    requires
                        digits_value(upto) == value * 10 + digit,
                        value > (u64::MAX - digit) / 10,
                        0 <= digit <= 9,
                ;
                if all_digits(digits) {
                    lemma_prefix_value(digits, i - start + 1);
                }
            }
            return None;
        }
        assert(value * 10 + digit <= u64::MAX) by (nonlinear_arith)
            requires
                value <= (u64::MAX - digit) / 10,
                0 <= digit <= 9,
        ;
        value = value * 10 + digit;
        proof {
            assert forall|j: int| 0 <= j < upto.len() implies 48 <= #[trigger] upto[j] <= 57 by {
                if j < i - start {
                    assert(upto[j] == digits.subrange(0, i - start)[j]);
                }
            }
        }
        i = i + 1;
    }
    proof {
        assert(digits.subrange(0, i - start) =~= digits);
    }
    Some(value)
}

/// The digits written for a number denote it.
pub proof fn lemma_decimal_denotes(n: nat)
    ensures
        decimal(n).len() > 0,
        all_digits(decimal(n)),
        digits_value(decimal(n)) == n,
        decimal(n)[0] != 43,
    decreases n,
{
    if n < 10 {
        let d = decimal(n);
        assert(d.drop_last() =~= Seq::<u8>::empty());
        assert(digits_value(d.drop_last()) == 0);
    } else {
        lemma_decimal_denotes(n / 10);
        let d = decimal(n);
        assert(d.drop_last() =~= decimal(n / 10));
        assert(d[0] == decimal(n / 10)[0]);
        assert forall|i: int| 0 <= i < d.len() implies 48 <= #[trigger] d[i] <= 57 by {
            if i < d.len() - 1 {
                assert(d[i] == decimal(n / 10)[i]);
            }
        }
    }
}

/// A length written in decimal is read back as itself.
pub proof fn lemma_length_round_trip(n: u64)
    ensures
        declared_length_spec(decimal(n as nat)) == Some(n),
{
    lemma_decimal_denotes(n as nat);
}

/// The class of a response status for a transfer: "OK" and "Partial
/// Content" are accepted and nothing else.
pub open spec fn transfer_status_spec(code: u16) -> StatusClass {
    if code == 200 || code == 206 {
        StatusClass::Accepted
    } else if is_transient_status(code) {
        StatusClass::Transient
    } else {
        StatusClass::NonRetryable
    }
}

/// Classifies the response status of a transfer.
pub fn classify_transfer_status(code: u16) -> (class: StatusClass)
    ensures
        class == transfer_status_spec(code),
        class == StatusClass::Accepted <==> content_kind_spec(code) is Some,
{
    if code == 200 || code == 206 {
        StatusClass::Accepted
    } else if code == 429 || code == 500 || code == 502 || code == 503 || code == 504 {
        StatusClass::Transient
    } else {
        StatusClass::NonRetryable
    }
}

/// The kind of content that an accepted status announces.
pub open spec fn content_kind_spec(code: u16) -> Option<ContentKind> {
    if code == 200 {
        Some(ContentKind::Full)
    } else if code == 206 {
        Some(ContentKind::Partial)
    } else {
        None
    }
}

/// The kind of content that a response status announces, or `None` for a
/// status that is a failure.
pub fn content_kind(code: u16) -> (kind: Option<ContentKind>)
    ensures
        kind == content_kind_spec(code),
{
    if code == 200 {
        Some(ContentKind::Full)
    } else if code == 206 {
        Some(ContentKind::Partial)
    } else {
        None
    }
}

/// The expected final size of the destination: the declared length, plus
/// the offset where the response is partial. It is unknown where no length
/// was declared or where the sum does not fit 64 bits.
pub open spec fn expected_size_spec(declared: Option<u64>, kind: ContentKind, offset: u64)
    -> Option<u64> {
    match declared {
        None => None,
        Some(n) => match kind {
            ContentKind::Full => Some(n),
            ContentKind::Partial => if n + offset <= u64::MAX {
                Some((n + offset) as u64)
            } else {
                None
            },
        },
    }
}

/// Computes the expected final size of the destination. It serves the
/// reporting of progress only.
pub fn expected_size(declared: Option<u64>, kind: ContentKind, offset: u64) -> (total: Option<u64>)
    ensures
        total == expected_size_spec(declared, kind, offset),
{
    match declared {
        None => None,
        Some(n) => match kind {
            ContentKind::Full => Some(n),
            ContentKind::Partial => if n <= u64::MAX - offset {
                Some(n + offset)
            } else {
                None
            },
        },
    }
}

/// The state of one attempt while it streams.
#[derive(Clone, Copy, Debug, PartialEq, Eq, Structural)]
pub struct TransferState {
    already_on_disk: u64,
    written: u64,
    expected_total: Option<u64>,
    mode: WriteMode,
}

impl TransferState {
    /// The bytes that were on disk when the attempt began.
    pub closed spec fn already_on_disk(&self) -> nat {
        self.already_on_disk as nat
    }

    /// The bytes written by this attempt so far.
    pub closed spec fn written(&self) -> nat {
        self.written as nat
    }

    /// The expected final size, where known.
    pub closed spec fn expected_total(&self) -> Option<u64> {
        self.expected_total
    }

    /// How the destination was opened.
    pub closed spec fn mode(&self) -> WriteMode {
        self.mode
    }

    /// The progress: the bytes of the destination that are in place.
    pub open spec fn position(&self) -> nat {
        self.already_on_disk() + self.written()
    }

    /// The position fits 64 bits, and the destination is appended to
    /// exactly where the attempt builds on bytes on disk.
    pub open spec fn wf(&self) -> bool {
        &&& self.position() <= u64::MAX
        &&& self.mode() == WriteMode::Append <==> self.already_on_disk() > 0
    }

    /// The state at the start of the streaming of an accepted response.
    pub fn begin(plan: AttemptPlan, kind: ContentKind, declared: Option<u64>) -> (state: Self)
        requires
            plan.mode == WriteMode::Append <==> plan.offset > 0,
        ensures
            state.wf(),
            state.already_on_disk() == plan.offset,
            state.written() == 0,
            state.mode() == plan.mode,
            state.expected_total() == expected_size_spec(declared, kind, plan.offset),
    {
        TransferState {
            already_on_disk: plan.offset,
            written: 0,
            expected_total: expected_size(declared, kind, plan.offset),
            mode: plan.mode,
        }
    }

    /// Whether one more write of `len` bytes keeps the position within 64
    /// bits.
    pub fn can_record(&self, len: usize) -> (ok: bool)
        requires
            self.wf(),
        ensures
            ok <==> self.position() + len <= u64::MAX,
    {
        let position: u64 = self.already_on_disk + self.written;
        len as u64 <= u64::MAX - position
    }

    /// Records one write of `len` bytes and returns the new position, which
    /// is what progress reports show. The position never goes back.
    pub fn record_write(&mut self, len: usize) -> (position: u64)
        requires
            old(self).wf(),
            old(self).position() + len <= u64::MAX,
        ensures
            final(self).wf(),
            final(self).written() == old(self).written() + len,
            final(self).already_on_disk() == old(self).already_on_disk(),
            final(self).expected_total() == old(self).expected_total(),
            final(self).mode() == old(self).mode(),
            position == final(self).position(),
            position >= old(self).position(),
    {
        self.written = self.written + len as u64;
        self.already_on_disk + self.written
    }

    /// The bytes of the destination that are in place.
    pub fn progress(&self) -> (position: u64)
        requires
            self.wf(),
        ensures
            position == self.position(),
    {
        self.already_on_disk + self.written
    }

    /// The expected final size, where known.
    pub fn total(&self) -> (total: Option<u64>)
        ensures
            total == self.expected_total(),
    {
        self.expected_total
    }

    /// How the destination was opened.
    pub fn write_mode(&self) -> (mode: WriteMode)
        ensures
            mode == self.mode(),
    {
        self.mode
    }
}

/// What the destination holds after the writes of one attempt: they
/// replace what was there, or follow it.
pub open spec fn destination_after(before: Seq<u8>, mode: WriteMode, writes: Seq<Seq<u8>>) -> Seq<
    u8,
> {
    match mode {
        WriteMode::Create => concat(writes),
        WriteMode::Append => before + concat(writes),
    }
}

/// What a source that honours ranges sends for a plan: all of the
/// resource, or the part from the offset asked for to the end.
pub open spec fn body_for(source: Seq<u8>, plan: AttemptPlan) -> Seq<u8> {
    match plan.range_from {
        Some(from) => source.subrange(from as int, source.len() as int),
        None => source,
    }
}

/// A completed attempt leaves the destination equal to the source, byte
/// for byte: without resumption whatever was there before, and with
/// resumption where the destination held the first bytes of the source.
/// When resuming, only the bytes from the offset on are asked for, and the
/// bytes on disk stay in place before what is written.
pub proof fn lemma_round_trip(
    source: Seq<u8>,
    before: Option<Seq<u8>>,
    resume: bool,
    writes: Seq<Seq<u8>>,
)
    requires
        before is Some ==> before.unwrap().len() <= u64::MAX,
        resume && before is Some ==> before.unwrap().len() <= source.len() && before.unwrap()
            == source.subrange(0, before.unwrap().len() as int),
        concat(writes) == body_for(
            source,
            plan_spec(
                resume,
                match before {
                    Some(b) => Some(b.len() as u64),
                    None => None,
                },
            ),
        ),
    ensures
        ({
            let size = match before {
                Some(b) => Some(b.len() as u64),
                None => None,
            };
            let held = match before {
                Some(b) => b,
                None => Seq::<u8>::empty(),
            };
            let plan = plan_spec(resume, size);
            &&& destination_after(held, plan.mode, writes) == source
            &&& plan.offset > 0 ==> concat(writes).len() == source.len() - plan.offset
                && destination_after(held, plan.mode, writes).subrange(0, plan.offset as int)
                == held
        }),
{
    let size = match before {
        Some(b) => Some(b.len() as u64),
        None => None,
    };
    let held = match before {
        Some(b) => b,
        None => Seq::<u8>::empty(),
    };
    let plan = plan_spec(resume, size);
    if plan.offset > 0 {
        assert(held + source.subrange(plan.offset as int, source.len() as int) =~= source);
        assert((held + concat(writes)).subrange(0, plan.offset as int) =~= held);
    }
}

} // verus!
