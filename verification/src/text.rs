//! Text put together piece by piece.

use vstd::prelude::*;
use vstd::string::StringExecFns;

verus! {

/// What each of `written` spells.
pub open spec fn names(written: Seq<String>) -> Seq<Seq<char>> {
    Seq::new(written.len(), |i: int| written[i]@)
}

/// What an optional string spells.
pub open spec fn maybe_name(written: Option<String>) -> Option<Seq<char>> {
    match written {
        Some(name) => Some(name@),
        None => None,
    }
}

/// Where `wanted` first stands in `held`.
pub open spec fn position<T>(held: Seq<T>, wanted: T) -> Option<int>
    decreases held.len(),
{
    if held.len() == 0 {
        None
    } else {
        match position(held.drop_last(), wanted) {
            Some(at) => Some(at),
            None => if held.last() == wanted {
                Some(held.len() - 1)
            } else {
                None
            },
        }
    }
}

/// A position is the first one that holds what was wanted, and there is one
/// exactly where something holds it.
pub proof fn position_is_first<T>(held: Seq<T>, wanted: T)
    ensures
        match position(held, wanted) {
            Some(at) => 0 <= at < held.len() && held[at] == wanted && forall|i: int|
                0 <= i < at ==> held[i] != wanted,
            None => !held.contains(wanted),
        },
    decreases held.len(),
{
    if held.len() > 0 {
        let shorter = held.drop_last();
        position_is_first(shorter, wanted);
        assert(forall|i: int| 0 <= i < shorter.len() ==> #[trigger] held[i] == shorter[i]);
        if position(shorter, wanted) is None {
            assert forall|i: int| 0 <= i < shorter.len() implies held[i] != wanted by {
                assert(shorter.contains(shorter[i]));
            }
        }
        if position(held, wanted) is None {
            assert forall|i: int| 0 <= i < held.len() implies held[i] != wanted by {
                assert(i < shorter.len() || held[i] == held.last());
            }
        }
    }
}

/// Where something first stands is its position.
pub proof fn first_is_position<T>(held: Seq<T>, wanted: T, at: int)
    requires
        0 <= at < held.len(),
        held[at] == wanted,
        forall|i: int| 0 <= i < at ==> held[i] != wanted,
    ensures
        position(held, wanted) == Some(at),
{
    position_is_first(held, wanted);
    assert(held.contains(wanted));
}

/// Nothing that is not held has a position.
pub proof fn absent_has_no_position<T>(held: Seq<T>, wanted: T)
    requires
        forall|i: int| 0 <= i < held.len() ==> held[i] != wanted,
    ensures
        position(held, wanted) is None,
{
    position_is_first(held, wanted);
}

/// Where `wanted` first stands among `held`.
pub fn position_of(held: &Vec<String>, wanted: &String) -> (found: Option<usize>)
    ensures
        match found {
            Some(at) => position(names(held@), wanted@) == Some(at as int) && at < held.len(),
            None => position(names(held@), wanted@) is None,
        },
{
    let mut i: usize = 0;
    while i < held.len()
        invariant
            i <= held.len(),
            forall|j: int| 0 <= j < i ==> names(held@)[j] != wanted@,
        decreases held.len() - i,
    {
        if held[i] == *wanted {
            proof {
                first_is_position(names(held@), wanted@, i as int);
            }
            return Some(i);
        }
        i += 1;
    }
    proof {
        absent_has_no_position(names(held@), wanted@);
    }
    None
}

/// A copy of each string.
pub fn clone_names(held: &Vec<String>) -> (copy: Vec<String>)
    ensures
        names(copy@) == names(held@),
{
    let mut copied: Vec<String> = Vec::new();
    let mut i: usize = 0;
    while i < held.len()
        invariant
            i <= held.len(),
            copied@.len() == i,
            forall|j: int| 0 <= j < i ==> (#[trigger] copied@[j])@ == held@[j]@,
        decreases held.len() - i,
    {
        copied.push(held[i].clone());
        i += 1;
    }
    assert(names(copied@) =~= names(held@));
    copied
}

/// A copy of an optional string.
pub fn clone_maybe_name(held: &Option<String>) -> (copy: Option<String>)
    ensures
        maybe_name(copy) == maybe_name(*held),
{
    match held {
        Some(name) => Some(name.clone()),
        None => None,
    }
}

/// The decimal digit worth `value`.
pub open spec fn digit(value: nat) -> Seq<char> {
    if value == 0 {
        "0"@
    } else if value == 1 {
        "1"@
    } else if value == 2 {
        "2"@
    } else if value == 3 {
        "3"@
    } else if value == 4 {
        "4"@
    } else if value == 5 {
        "5"@
    } else if value == 6 {
        "6"@
    } else if value == 7 {
        "7"@
    } else if value == 8 {
        "8"@
    } else {
        "9"@
    }
}

/// `value` in decimal, without leading zeros.
pub open spec fn decimal(value: nat) -> Seq<char>
    decreases value,
{
    if value < 10 {
        digit(value)
    } else {
        decimal(value / 10) + digit(value % 10)
    }
}

fn digit_of(value: u64) -> (spelled: &'static str)
    requires
        value < 10,
    ensures
        spelled@ == digit(value as nat),
{
    match value {
        0 => "0",
        1 => "1",
        2 => "2",
        3 => "3",
        4 => "4",
        5 => "5",
        6 => "6",
        7 => "7",
        8 => "8",
        _ => "9",
    }
}

/// Writes `value` in decimal.
pub fn number(value: u64) -> (spelled: String)
    ensures
        spelled@ == decimal(value as nat),
    decreases value,
{
    if value < 10 {
        digit_of(value).to_owned()
    } else {
        let mut spelled = number(value / 10);
        spelled.append(digit_of(value % 10));
        spelled
    }
}

/// `parts` in order, with `separator` between each two.
pub open spec fn joined(parts: Seq<Seq<char>>, separator: Seq<char>) -> Seq<char>
    decreases parts.len(),
{
    if parts.len() == 0 {
        Seq::empty()
    } else if parts.len() == 1 {
        parts[0]
    } else {
        joined(parts.drop_last(), separator) + separator + parts.last()
    }
}

/// Joins `parts`, with `separator` between each two.
pub fn join(parts: &Vec<String>, separator: &str) -> (out: String)
    ensures
        out@ == joined(names(parts@), separator@),
{
    let mut out = String::new();
    let mut i: usize = 0;
    while i < parts.len()
        invariant
            i <= parts.len(),
            out@ == joined(names(parts@).take(i as int), separator@),
        decreases parts.len() - i,
    {
        proof {
            let next = names(parts@).take(i + 1);
            assert(next.drop_last() =~= names(parts@).take(i as int));
            assert(next.last() == parts@[i as int]@);
        }
        if i > 0 {
            out.append(separator);
            out.append(parts[i].as_str());
        } else {
            out = parts[i].clone();
        }
        i += 1;
    }
    assert(names(parts@).take(parts@.len() as int) =~= names(parts@));
    out
}

/// `parts` in order, with nothing between them.
pub open spec fn concatenated(parts: Seq<Seq<char>>) -> Seq<char>
    decreases parts.len(),
{
    if parts.len() == 0 {
        Seq::empty()
    } else {
        concatenated(parts.drop_last()) + parts.last()
    }
}

/// Puts `parts` one behind another.
pub fn concat(parts: &Vec<String>) -> (out: String)
    ensures
        out@ == concatenated(names(parts@)),
{
    let mut out = String::new();
    let mut i: usize = 0;
    while i < parts.len()
        invariant
            i <= parts.len(),
            out@ == concatenated(names(parts@).take(i as int)),
        decreases parts.len() - i,
    {
        assert(names(parts@).take(i + 1).drop_last() =~= names(parts@).take(i as int));
        assert(names(parts@).take(i + 1).last() == parts@[i as int]@);
        out.append(parts[i].as_str());
        i += 1;
    }
    assert(names(parts@).take(parts@.len() as int) =~= names(parts@));
    out
}

/// How a character is written as a literal.
pub uninterp spec fn quoted_char(value: char) -> Seq<char>;

/// How a string is written as a literal.
pub uninterp spec fn quoted_str(value: Seq<char>) -> Seq<char>;

/// `char`'s `Debug` form: the character in single quotes, with what needs it
/// escaped. The form depends on the character alone.
#[verifier::external_body]
pub(crate) fn quote_char(value: char) -> (out: String)
    ensures
        out@ == quoted_char(value),
{
    format!("{value:?}")
}

/// `str`'s `Debug` form: the text in double quotes, with what needs it
/// escaped. The form depends on the text alone.
#[verifier::external_body]
pub(crate) fn quote_str(value: &str) -> (out: String)
    ensures
        out@ == quoted_str(value@),
{
    format!("{value:?}")
}

/// What follows `prefix` in `text`, where `text` starts with it.
pub open spec fn without_prefix(text: Seq<char>, prefix: Seq<char>) -> Option<Seq<char>> {
    if prefix.len() <= text.len() && text.take(prefix.len() as int) == prefix {
        Some(text.skip(prefix.len() as int))
    } else {
        None
    }
}

/// What follows `prefix` in `text`, where `text` starts with it.
pub fn strip_prefix(text: &String, prefix: &str) -> (rest: Option<String>)
    ensures
        maybe_name(rest) == without_prefix(text@, prefix@),
{
    let whole = text.as_str();
    let count: usize = prefix.unicode_len();
    let length: usize = whole.unicode_len();
    if count <= length {
        let head = whole.substring_char(0, count).to_owned();
        assert(head@ =~= text@.take(count as int));
        if head == prefix.to_owned() {
            let tail = whole.substring_char(count, length).to_owned();
            assert(tail@ =~= text@.skip(count as int));
            return Some(tail);
        }
    }
    None
}

/// Whether two texts are the same.
pub fn same_text(left: &str, right: &str) -> (same: bool)
    ensures
        same == (left@ == right@),
{
    left.to_owned() == right.to_owned()
}

/// Whether `wanted` is one of the names.
pub fn is_named(held: &Vec<String>, wanted: &str) -> (found: bool)
    ensures
        found == names(held@).contains(wanted@),
{
    let mut i: usize = 0;
    while i < held.len()
        invariant
            i <= held.len(),
            forall|k: int| 0 <= k < i ==> (#[trigger] names(held@)[k]) != wanted@,
        decreases held.len() - i,
    {
        if same_text(held[i].as_str(), wanted) {
            assert(names(held@)[i as int] == wanted@);
            return true;
        }
        i += 1;
    }
    false
}

} // verus!
