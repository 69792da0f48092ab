//! Predictions that users make: what a request about them asks for, how
//! they are numbered, listed, and written down line by line.

use crate::text::{decimal, numeral_value, parse_number, pieces, push_decimal, remove_all, same_text, split, without};
use vstd::prelude::*;
use vstd::string::StringExecFns;

verus! {

/// A prediction that a user made.
#[derive(Debug, Clone, PartialEq, Eq)]
pub struct UserPrediction {
    pub user_id: u64,
    pub user_name: String,
    pub prediction: String,
}

/// What a prediction holds, as mathematical values.
pub struct PredictionModel {
    pub user_id: u64,
    pub user_name: Seq<char>,
    pub prediction: Seq<char>,
}

impl View for UserPrediction {
    type V = PredictionModel;

    open spec fn view(&self) -> PredictionModel {
        PredictionModel {
            user_id: self.user_id,
            user_name: self.user_name@,
            prediction: self.prediction@,
        }
    }
}

/// What a request about predictions asks for.
#[derive(Clone, Copy, Debug, PartialEq, Eq, Structural)]
pub enum PredictionMode {
    List,
    Add,
    Remove,
    Nothing,
}

/// Whether `part` occurs somewhere in `text`.
pub open spec fn occurs_in(text: Seq<char>, part: Seq<char>) -> bool {
    exists|i: int|
        0 <= i && i + part.len() <= text.len() && #[trigger] text.subrange(i, i + part.len())
            == part
}

/// What the request `content` asks for: the listing, an addition or a
/// removal, by the first of the three switches, in this order, that occurs
/// in it.
pub open spec fn mode_of(content: Seq<char>) -> PredictionMode {
    if occurs_in(content, " -list"@) {
        PredictionMode::List
    } else if occurs_in(content, " -add"@) {
        PredictionMode::Add
    } else if occurs_in(content, " -remove"@) {
        PredictionMode::Remove
    } else {
        PredictionMode::Nothing
    }
}

/// Whether `part` occurs somewhere in `text`.
pub fn contains_text(text: &str, part: &str) -> (found: bool)
    ensures
        found == occurs_in(text@, part@),
{
    let len: usize = text.unicode_len();
    let plen: usize = part.unicode_len();
    if plen > len {
        return false;
    }
    let last: usize = len - plen;
    let mut i: usize = 0;
    while i < last
        invariant
            last == len - plen,
            len == text@.len(),
            plen == part@.len(),
            i <= last,
            forall|k: int| 0 <= k < i ==> #[trigger] text@.subrange(k, k + plen) != part@,
        decreases last - i,
    {
        if same_text(text.substring_char(i, i + plen), part) {
            return true;
        }
        i += 1;
    }
    let found: bool = same_text(text.substring_char(last, len), part);
    proof {
        if found {
            assert(text@.subrange(last as int, last + part@.len()) == part@);
        } else {
            assert forall|k: int| 0 <= k && k + part@.len() <= text@.len() implies #[trigger] text@.subrange(
                k,
                k + part@.len(),
            ) != part@ by {
                if k == last {
                    assert(text@.subrange(last as int, len as int) != part@);
                }
            }
        }
    }
    found
}

/// What the request `content` asks for.
pub fn addPrediction(content: &str) -> (mode: PredictionMode)
    ensures
        mode == mode_of(content@),
{
    if contains_text(content, " -list") {
        PredictionMode::List
    } else if contains_text(content, " -add") {
        PredictionMode::Add
    } else if contains_text(content, " -remove") {
        PredictionMode::Remove
    } else {
        PredictionMode::Nothing
    }
}

/// The largest of `keys`, 0 where there is none.
pub open spec fn highest(keys: Seq<u64>) -> u64
    decreases keys.len(),
{
    if keys.len() == 0 {
        0
    } else if keys.last() > highest(keys.drop_last()) {
        keys.last()
    } else {
        highest(keys.drop_last())
    }
}

/// The number for the next prediction: one more than the largest in use.
pub fn next_key(keys: &Vec<u64>) -> (key: u64)
    requires
        highest(keys@) < u64::MAX,
    ensures
        key == highest(keys@) + 1,
{
    let mut highest_id: u64 = 0;
    let mut i: usize = 0;
    assert(keys@.take(0) =~= Seq::<u64>::empty());
    while i < keys.len()
        invariant
            i <= keys.len(),
            highest_id == highest(keys@.take(i as int)),
        decreases keys.len() - i,
    {
        assert(keys@.take(i + 1).drop_last() =~= keys@.take(i as int));
        if keys[i] > highest_id {
            highest_id = keys[i];
        }
        i += 1;
    }
    assert(keys@.take(keys.len() as int) =~= keys@);
    highest_id + 1
}

/// The line that writes down the prediction numbered `key`: number, user,
/// prediction and user name, with equals signs between them.
pub open spec fn record(key: u64, p: PredictionModel) -> Seq<char> {
    decimal(key as nat) + "="@ + decimal(p.user_id as nat) + "="@ + p.prediction + "="@
        + p.user_name + "\n"@
}

/// The line that writes down the prediction numbered `key`.
pub fn record_line(key: u64, p: &UserPrediction) -> (line: String)
    ensures
        line@ == record(key, p@),
{
    let mut line: String = String::new();
    push_decimal(&mut line, key);
    line.append("=");
    push_decimal(&mut line, p.user_id);
    line.append("=");
    line.append(p.prediction.as_str());
    line.append("=");
    line.append(p.user_name.as_str());
    line.append("\n");
    assert(line@ =~= record(key, p@));
    line
}

/// The line of the listing for the prediction numbered `key`.
pub open spec fn listed(key: u64, p: PredictionModel) -> Seq<char> {
    p.prediction + " by "@ + p.user_name + ", ID:"@ + decimal(key as nat) + "\n"@
}

/// The lines of the listing for `entries`, in order.
pub open spec fn listed_all(entries: Seq<(u64, UserPrediction)>) -> Seq<char>
    decreases entries.len(),
{
    if entries.len() == 0 {
        Seq::empty()
    } else {
        listed_all(entries.drop_last()) + listed(entries.last().0, entries.last().1@)
    }
}

/// The listing of the predictions `entries`: a heading, then a line for
/// each; a notice where there is none.
pub open spec fn listing(entries: Seq<(u64, UserPrediction)>) -> Seq<char> {
    if entries.len() == 0 {
        "No Predictions at the moment!"@
    } else {
        "Current Predictions: \n"@ + listed_all(entries)
    }
}

/// The listing of the predictions `entries`.
pub fn printList(entries: &Vec<(u64, UserPrediction)>) -> (out: String)
    ensures
        out@ == listing(entries@),
{
    let mut out: String = String::new();
    if entries.len() == 0 {
        out.append("No Predictions at the moment!");
        return out;
    }
    out.append("Current Predictions: \n");
    let ghost head = out@;
    let mut i: usize = 0;
    assert(entries@.take(0) =~= Seq::<(u64, UserPrediction)>::empty());
    while i < entries.len()
        invariant
            i <= entries.len(),
            out@ == head + listed_all(entries@.take(i as int)),
        decreases entries.len() - i,
    {
        assert(entries@.take(i + 1).drop_last() =~= entries@.take(i as int));
        let ghost before = out@;
        out.append(entries[i].1.prediction.as_str());
        out.append(" by ");
        out.append(entries[i].1.user_name.as_str());
        out.append(", ID:");
        push_decimal(&mut out, entries[i].0);
        out.append("\n");
        assert(out@ =~= before + listed(entries@[i as int].0, entries@[i as int].1@));
        i += 1;
    }
    assert(entries@.take(entries.len() as int) =~= entries@);
    out
}

/// The text of a request about predictions without the words of the
/// request: the prediction to add, or the number to remove.
pub open spec fn request_text(content: Seq<char>) -> Seq<char> {
    without(without(without(content, "$predict "@), "-add "@), "-remove "@)
}

/// The text of a request about predictions without the words of the
/// request.
pub fn checkMessageValid(content: &str) -> (result: String)
    ensures
        result@ == request_text(content@),
{
    let first: String = remove_all(content, "$predict ");
    let second: String = remove_all(first.as_str(), "-add ");
    remove_all(second.as_str(), "-remove ")
}

/// Why a line holds no prediction.
#[derive(Clone, Copy, Debug, PartialEq, Eq, Structural)]
pub enum RecordError {
    /// The line does not fall into four fields.
    Fields,
    /// The number of the prediction or of the user is no numeral.
    Number,
}

/// The prediction that a line writes down, with its number: the line falls
/// into four fields at its equals signs, the first two of them numerals.
pub open spec fn record_of(line: Seq<char>) -> Result<(u64, PredictionModel), RecordError> {
    let fields = pieces(line, "="@);
    if fields.len() != 4 {
        Err(RecordError::Fields)
    } else {
        match (
            numeral_value(fields[1], u64::MAX as nat),
            numeral_value(fields[0], u64::MAX as nat),
        ) {
            (Some(user), Some(key)) => Ok(
                (
                    key as u64,
                    PredictionModel {
                        user_id: user as u64,
                        prediction: fields[2],
                        user_name: fields[3],
                    },
                ),
            ),
            _ => Err(RecordError::Number),
        }
    }
}

/// The view of a prediction read from a line.
pub open spec fn read_view(r: Result<(u64, UserPrediction), RecordError>) -> Result<
    (u64, PredictionModel),
    RecordError,
> {
    match r {
        Ok((key, p)) => Ok((key, p@)),
        Err(e) => Err(e),
    }
}

/// The prediction that a line writes down, with its number.
pub fn read_record(line: &str) -> (r: Result<(u64, UserPrediction), RecordError>)
    ensures
        read_view(r) == record_of(line@),
{
    let fields: Vec<String> = split(line, "=");
    if fields.len() != 4 {
        return Err(RecordError::Fields);
    }
    assert(fields.deep_view()[0] == fields[0]@);
    assert(fields.deep_view()[1] == fields[1]@);
    assert(fields.deep_view()[2] == fields[2]@);
    assert(fields.deep_view()[3] == fields[3]@);
    let user: Option<u64> = parse_number(fields[1].as_str(), u64::MAX);
    let key: Option<u64> = parse_number(fields[0].as_str(), u64::MAX);
    match (user, key) {
        (Some(user), Some(key)) => Ok(
            (
                key,
                UserPrediction {
                    user_id: user,
                    prediction: fields[2].clone(),
                    user_name: fields[3].clone(),
                },
            ),
        ),
        _ => Err(RecordError::Number),
    }
}

} // verus!
