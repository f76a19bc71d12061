use vstd::prelude::*;

verus! {

/// Retries allowed after the first attempt of a throttled call.
pub const MAX_RETRIES: u8 = 3;

/// Pause, in seconds, after a call that the server answered.
pub const COOLDOWN_SECONDS: u64 = 1;

pub open spec fn is_digit(c: char) -> bool {
    '0' <= c && c <= '9'
}

pub open spec fn digit_value(c: char) -> int {
    c as int - '0' as int
}

/// The number that a string of decimal digits spells.
pub open spec fn digits_value(s: Seq<char>) -> int
    decreases s.len(),
{
    if s.len() == 0 {
        0
    } else {
        digits_value(s.drop_last()) * 10 + digit_value(s.last())
    }
}

pub open spec fn all_digits(s: Seq<char>) -> bool {
    forall|i: int| 0 <= i < s.len() ==> is_digit(#[trigger] s[i])
}

/// The wait, in seconds, that a `retry-after` value asks for: a non-empty run
/// of decimal digits whose value fits in a `u64`.
pub open spec fn wait_seconds_of(s: Seq<char>) -> Option<u64> {
    if s.len() > 0 && all_digits(s) && digits_value(s) <= u64::MAX {
        Some(digits_value(s) as u64)
    } else {
        None
    }
}

proof fn lemma_digits_value_nonneg(s: Seq<char>)
    requires
        all_digits(s),
    ensures
        digits_value(s) >= 0,
    decreases s.len(),
{
    if s.len() > 0 {
        assert(is_digit(s[s.len() - 1]));
        lemma_digits_value_nonneg(s.drop_last());
    }
}

proof fn lemma_digits_value_grows(s: Seq<char>, i: int)
    requires
        all_digits(s),
        0 <= i <= s.len(),
    ensures
        digits_value(s.take(i)) <= digits_value(s),
    decreases s.len() - i,
{
    if i < s.len() {
        lemma_digits_value_grows(s, i + 1);
        let t = s.take(i + 1);
        assert(t.drop_last() =~= s.take(i));
        assert(t.last() == s[i]);
        assert(is_digit(s[i]));
        assert(all_digits(s.take(i))) by {
            assert forall|j: int| 0 <= j < i implies is_digit(#[trigger] s.take(i)[j]) by {
                assert(s.take(i)[j] == s[j]);
            }
        }
        lemma_digits_value_nonneg(s.take(i));
    } else {
        assert(s.take(i) =~= s);
    }
}

/// Reads the wait that a `retry-after` header value asks for.
pub fn parse_wait_seconds(value: &str) -> (r: Option<u64>)
    ensures
        r == wait_seconds_of(value@),
{
    let n = value.unicode_len();
    if n == 0 {
        return None;
    }
    let mut acc: u64 = 0;
    let mut too_big = false;
    let mut i: usize = 0;
    while i < n
        invariant
            n == value@.len(),
            i <= n,
            all_digits(value@.take(i as int)),
            !too_big ==> acc == digits_value(value@.take(i as int)),
            too_big ==> digits_value(value@.take(i as int)) > u64::MAX,
        decreases n - i,
    {
        let c = value.get_char(i);
        if c < '0' || c > '9' {
            assert(!is_digit(value@[i as int]));
            assert(!all_digits(value@));
            return None;
        }
        let d: u64 = ((c as u32) - ('0' as u32)) as u64;
        proof {
            let t = value@.take(i + 1);
            assert(t.drop_last() =~= value@.take(i as int));
            assert(t.last() == c);
            assert(all_digits(t)) by {
                assert forall|j: int| 0 <= j < i + 1 implies is_digit(#[trigger] t[j]) by {
                    if j < i {
                        assert(t[j] == value@.take(i as int)[j]);
                    }
                }
            }
            assert(digits_value(t) == digits_value(value@.take(i as int)) * 10 + d);
        }
        if !too_big {
            if acc > (u64::MAX - d) / 10 {
                too_big = true;
            } else {
                acc = acc * 10 + d;
            }
        }
        i = i + 1;
    }
    assert(value@.take(n as int) =~= value@);
    if too_big {
        None
    } else {
        Some(acc)
    }
}

/// One remote operation that may be throttled.
#[derive(Debug, Clone)]
pub enum Operation {
    /// Upload the image in archive file `filename` under the emoji name `name`.
    Upload { name: String, filename: String },
    /// Make `name` another name for the emoji `alias_for`.
    Alias { name: String, alias_for: String },
}

/// The value of one field of an outgoing form.
#[derive(Debug, Clone)]
pub enum FieldValue {
    Text(String),
    /// The bytes of the archive file of this name, read afresh for each attempt.
    File(String),
}

/// One field of an outgoing form.
#[derive(Debug, Clone)]
pub struct FormField {
    pub name: String,
    pub value: FieldValue,
}

impl FormField {
    /// The field as (name, whether its value is a file, text or file name).
    pub open spec fn view_triple(&self) -> (Seq<char>, bool, Seq<char>) {
        match self.value {
            FieldValue::Text(t) => (self.name@, false, t@),
            FieldValue::File(f) => (self.name@, true, f@),
        }
    }
}

pub open spec fn form_view(fields: Seq<FormField>) -> Seq<(Seq<char>, bool, Seq<char>)> {
    fields.map_values(|f: FormField| f.view_triple())
}

fn text_field(name: &str, text: String) -> (r: FormField)
    ensures
        r.view_triple() == (name@, false, text@),
{
    FormField { name: String::from_str(name), value: FieldValue::Text(text) }
}

impl Operation {
    /// The key that identifies the operation in a rejection: the emoji name, or
    /// the alias pair.
    pub open spec fn key_spec(&self) -> Seq<char> {
        match self {
            Operation::Upload { name, .. } => name@,
            Operation::Alias { name, alias_for } => "'"@ + name@ + "' for '"@ + alias_for@ + "'"@,
        }
    }

    /// The operation and its payload, as given when retries run out.
    pub open spec fn description_spec(&self) -> Seq<char> {
        match self {
            Operation::Upload { name, filename } => "upload of emoji "@ + name@ + " from "@
                + filename@,
            Operation::Alias { name, alias_for } => "adding alias '"@ + name@ + "' for '"@
                + alias_for@ + "'"@,
        }
    }

    /// The form that one attempt sends, with the API token.
    pub open spec fn form_spec(&self, token: Seq<char>) -> Seq<(Seq<char>, bool, Seq<char>)> {
        match self {
            Operation::Upload { name, filename } => seq![
                ("mode"@, false, "data"@),
                ("name"@, false, name@),
                ("image"@, true, filename@),
                ("token"@, false, token),
            ],
            Operation::Alias { name, alias_for } => seq![
                ("mode"@, false, "alias"@),
                ("name"@, false, name@),
                ("alias_for"@, false, alias_for@),
                ("token"@, false, token),
            ],
        }
    }

    pub fn key(&self) -> (r: String)
        ensures
            r@ == self.key_spec(),
    {
        match self {
            Operation::Upload { name, .. } => name.clone(),
            Operation::Alias { name, alias_for } => {
                let s = String::from_str("'").concat(name.as_str()).concat("' for '").concat(
                    alias_for.as_str(),
                ).concat("'");
                s
            },
        }
    }

    pub fn description(&self) -> (r: String)
        ensures
            r@ == self.description_spec(),
    {
        match self {
            Operation::Upload { name, filename } => {
                String::from_str("upload of emoji ").concat(name.as_str()).concat(" from ").concat(
                    filename.as_str(),
                )
            },
            Operation::Alias { name, alias_for } => {
                String::from_str("adding alias '").concat(name.as_str()).concat("' for '").concat(
                    alias_for.as_str(),
                ).concat("'")
            },
        }
    }

    /// Builds the form of one attempt. It is built anew for every attempt.
    pub fn form_fields(&self, token: &str) -> (r: Vec<FormField>)
        ensures
            form_view(r@) == self.form_spec(token@),
    {
        let mut fields: Vec<FormField> = Vec::new();
        match self {
            Operation::Upload { name, filename } => {
                fields.push(text_field("mode", String::from_str("data")));
                fields.push(text_field("name", name.clone()));
                fields.push(
                    FormField {
                        name: String::from_str("image"),
                        value: FieldValue::File(filename.clone()),
                    },
                );
                fields.push(text_field("token", String::from_str(token)));
            },
            Operation::Alias { name, alias_for } => {
                fields.push(text_field("mode", String::from_str("alias")));
                fields.push(text_field("name", name.clone()));
                fields.push(text_field("alias_for", alias_for.clone()));
                fields.push(text_field("token", String::from_str(token)));
            },
        }
        assert(form_view(fields@) =~= self.form_spec(token@));
        fields
    }
}

/// How a throttled call ended, when it did not succeed.
#[derive(Debug, Clone)]
pub enum SubmitError {
    /// The server kept throttling past the last retry.
    RetryExhausted { operation: String },
    /// The server answered with an error for the operation.
    OperationRejected { key: String, message: String },
    /// The server throttled the call with a wait that is not a number of seconds.
    InvalidThrottleSignal { value: String },
    /// The request could not be sent, or its answer could not be read.
    Transport { message: String },
}

/// What one attempt of a call got back.
#[derive(Debug, Clone)]
pub enum Response {
    /// The server throttled the call; this is its `retry-after` value.
    Throttled { retry_after: String },
    /// The server answered: its `ok` flag and its `error`, if any. The
    /// operation succeeded exactly when no error is reported.
    Answered { ok: bool, error: Option<String> },
    /// The request could not be sent, or its answer could not be read.
    TransportFailed { message: String },
}

/// What the caller does next.
#[derive(Debug)]
pub enum Action {
    /// Wait this many seconds, then send the request again.
    Retry { wait_seconds: u64 },
    /// The call has ended with `result`; pause `cooldown_seconds` before the next call.
    Finish { result: Result<(), SubmitError>, cooldown_seconds: u64 },
}

/// The kind of step that a response leads to.
#[derive(Debug, Clone, Copy, PartialEq, Eq)]
pub enum Resolution {
    Wait(u64),
    Succeeded,
    Rejected,
    Exhausted,
    BadSignal,
    Failed,
}

/// The step that the response to an attempt leads to, after `retries` retries.
pub open spec fn resolution(retries: nat, resp: Response) -> Resolution {
    match resp {
        Response::Throttled { retry_after } => if retries >= MAX_RETRIES {
            Resolution::Exhausted
        } else {
            match wait_seconds_of(retry_after@) {
                Some(w) => Resolution::Wait(w),
                None => Resolution::BadSignal,
            }
        },
        Response::Answered { error, .. } => if error is None {
            Resolution::Succeeded
        } else {
            Resolution::Rejected
        },
        Response::TransportFailed { .. } => Resolution::Failed,
    }
}

/// The steps of one call whose attempts get `resps` in turn: one step per
/// request sent, ending at the first step that is not a wait.
pub open spec fn trace(retries: nat, resps: Seq<Response>) -> Seq<Resolution>
    decreases resps.len(),
{
    if resps.len() == 0 {
        Seq::empty()
    } else {
        let r = resolution(retries, resps[0]);
        if r is Wait {
            seq![r] + trace(retries + 1, resps.drop_first())
        } else {
            seq![r]
        }
    }
}

impl Action {
    pub open spec fn resolution(&self) -> Resolution {
        match self {
            Action::Retry { wait_seconds } => Resolution::Wait(*wait_seconds),
            Action::Finish { result, .. } => match result {
                Ok(_) => Resolution::Succeeded,
                Err(SubmitError::RetryExhausted { .. }) => Resolution::Exhausted,
                Err(SubmitError::OperationRejected { .. }) => Resolution::Rejected,
                Err(SubmitError::InvalidThrottleSignal { .. }) => Resolution::BadSignal,
                Err(SubmitError::Transport { .. }) => Resolution::Failed,
            },
        }
    }
}

/// One call of a throttled operation: decides, from the response to each
/// attempt, whether to wait and retry or to end the call.
#[derive(Debug)]
pub struct Submission {
    operation: Operation,
    retries: u8,
    done: bool,
}

impl Submission {
    pub closed spec fn operation_spec(&self) -> Operation {
        self.operation
    }

    /// Retries made so far.
    pub closed spec fn retries_spec(&self) -> nat {
        self.retries as nat
    }

    pub closed spec fn is_done(&self) -> bool {
        self.done
    }

    pub open spec fn wf(&self) -> bool {
        self.retries_spec() <= MAX_RETRIES
    }

    pub fn new(operation: Operation) -> (r: Submission)
        ensures
            r.wf(),
            r.operation_spec() == operation,
            r.retries_spec() == 0,
            !r.is_done(),
    {
        Submission { operation, retries: 0, done: false }
    }

    pub fn operation(&self) -> (r: &Operation)
        ensures
            *r == self.operation_spec(),
    {
        &self.operation
    }

    pub fn retries(&self) -> (r: u8)
        ensures
            r == self.retries_spec(),
    {
        self.retries
    }

    pub fn is_finished(&self) -> (r: bool)
        ensures
            r == self.is_done(),
    {
        self.done
    }

    /// Takes the response to the latest attempt and says what comes next.
    pub fn on_response(&mut self, resp: Response) -> (action: Action)
        requires
            old(self).wf(),
            !old(self).is_done(),
        ensures
            final(self).wf(),
            final(self).operation_spec() == old(self).operation_spec(),
            action.resolution() == resolution(old(self).retries_spec(), resp),
            action is Retry ==> final(self).retries_spec() == old(self).retries_spec() + 1
                && !final(self).is_done(),
            action is Finish ==> final(self).retries_spec() == old(self).retries_spec()
                && final(self).is_done(),
            match action {
                Action::Retry { .. } => true,
                Action::Finish { result, cooldown_seconds } => {
                    &&& cooldown_seconds == (if result is Ok || result->Err_0 is OperationRejected {
                        COOLDOWN_SECONDS
                    } else {
                        0
                    })
                    &&& match result {
                        Ok(_) => true,
                        Err(SubmitError::RetryExhausted { operation }) => operation@
                            == old(self).operation_spec().description_spec(),
                        Err(SubmitError::OperationRejected { key, message }) => key@
                            == old(self).operation_spec().key_spec() && message@
                            == resp->Answered_error->0@,
                        Err(SubmitError::InvalidThrottleSignal { value }) => value@
                            == resp->Throttled_retry_after@,
                        Err(SubmitError::Transport { message }) => message@
                            == resp->TransportFailed_message@,
                    }
                },
            },
    {
        match resp {
            Response::Throttled { retry_after } => {
                if self.retries >= MAX_RETRIES {
                    self.done = true;
                    let operation = self.operation.description();
                    return Action::Finish {
                        result: Err(SubmitError::RetryExhausted { operation }),
                        cooldown_seconds: 0,
                    };
                }
                match parse_wait_seconds(retry_after.as_str()) {
                    Some(w) => {
                        self.retries = self.retries + 1;
                        Action::Retry { wait_seconds: w }
                    },
                    None => {
                        self.done = true;
                        Action::Finish {
                            result: Err(SubmitError::InvalidThrottleSignal { value: retry_after }),
                            cooldown_seconds: 0,
                        }
                    },
                }
            },
            Response::Answered { error, .. } => {
                self.done = true;
                match error {
                    None => Action::Finish { result: Ok(()), cooldown_seconds: COOLDOWN_SECONDS },
                    Some(message) => {
                        let key = self.operation.key();
                        Action::Finish {
                            result: Err(SubmitError::OperationRejected { key, message }),
                            cooldown_seconds: COOLDOWN_SECONDS,
                        }
                    },
                }
            },
            Response::TransportFailed { message } => {
                self.done = true;
                Action::Finish {
                    result: Err(SubmitError::Transport { message }),
                    cooldown_seconds: 0,
                }
            },
        }
    }
}

/// A call never sends more than the first attempt and its retries: whatever
/// the server answers, the steps of a call number at most four.
pub proof fn lemma_attempts_bounded(retries: nat, resps: Seq<Response>)
    requires
        retries <= MAX_RETRIES,
    ensures
        trace(retries, resps).len() <= MAX_RETRIES + 1 - retries,
    decreases resps.len(),
{
    if resps.len() > 0 {
        let r = resolution(retries, resps[0]);
        if r is Wait {
            lemma_attempts_bounded(retries + 1, resps.drop_first());
        }
    }
}

/// Three throttles followed by a success: the call waits three times, each
/// for the server's wait, and then succeeds after the fourth request.
pub proof fn lemma_three_throttles_then_success(resps: Seq<Response>)
    requires
        resps.len() >= 4,
        forall|i: int| 0 <= i < 3 ==> (#[trigger] resps[i]) is Throttled && wait_seconds_of(
            resps[i]->Throttled_retry_after@,
        ) is Some,
        resps[3] is Answered,
        resps[3]->Answered_error is None,
    ensures
        trace(0, resps).len() == 4,
        forall|i: int| 0 <= i < 3 ==> #[trigger] trace(0, resps)[i] == Resolution::Wait(
            wait_seconds_of(resps[i]->Throttled_retry_after@)->0,
        ),
        trace(0, resps)[3] == Resolution::Succeeded,
{
    let r1 = resps.drop_first();
    let r2 = r1.drop_first();
    let r3 = r2.drop_first();
    assert(resps[1] == r1[0] && resps[2] == r2[0] && resps[3] == r3[0]);
    assert(resps[0] is Throttled && resps[1] is Throttled && resps[2] is Throttled);
    assert(trace(3, r3) == seq![Resolution::Succeeded]);
    assert(resolution(2, r2[0]) is Wait);
    assert(trace(2, r2) =~= seq![resolution(2, r2[0])] + trace(3, r3));
    assert(resolution(1, r1[0]) is Wait);
    assert(trace(1, r1) =~= seq![resolution(1, r1[0])] + trace(2, r2));
    assert(resolution(0, resps[0]) is Wait);
    assert(trace(0, resps) =~= seq![resolution(0, resps[0])] + trace(1, r1));
    assert(trace(0, resps) =~= seq![
        resolution(0, resps[0]),
        resolution(1, resps[1]),
        resolution(2, resps[2]),
        Resolution::Succeeded,
    ]);
}

/// Four throttles in a row: the call waits three times, sends a fourth and
/// last request, and ends with its retries exhausted; nothing more is sent.
pub proof fn lemma_four_throttles_exhaust(resps: Seq<Response>)
    requires
        resps.len() >= 4,
        forall|i: int| 0 <= i < 4 ==> (#[trigger] resps[i]) is Throttled,
        forall|i: int| 0 <= i < 3 ==> wait_seconds_of(
            (#[trigger] resps[i])->Throttled_retry_after@,
        ) is Some,
    ensures
        trace(0, resps).len() == 4,
        forall|i: int| 0 <= i < 3 ==> (#[trigger] trace(0, resps)[i]) is Wait,
        trace(0, resps)[3] == Resolution::Exhausted,
{
    let r1 = resps.drop_first();
    let r2 = r1.drop_first();
    let r3 = r2.drop_first();
    assert(resps[1] == r1[0] && resps[2] == r2[0] && resps[3] == r3[0]);
    assert(resps[0] is Throttled && resps[1] is Throttled && resps[2] is Throttled);
    assert(resps[3] is Throttled);
    assert(trace(3, r3) == seq![Resolution::Exhausted]);
    assert(resolution(2, r2[0]) is Wait);
    assert(trace(2, r2) =~= seq![resolution(2, r2[0])] + trace(3, r3));
    assert(resolution(1, r1[0]) is Wait);
    assert(trace(1, r1) =~= seq![resolution(1, r1[0])] + trace(2, r2));
    assert(resolution(0, resps[0]) is Wait);
    assert(trace(0, resps) =~= seq![resolution(0, resps[0])] + trace(1, r1));
    assert(trace(0, resps) =~= seq![
        resolution(0, resps[0]),
        resolution(1, resps[1]),
        resolution(2, resps[2]),
        Resolution::Exhausted,
    ]);
}

} // verus!
