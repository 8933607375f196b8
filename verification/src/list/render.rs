use std::fmt::Display;
use std::fmt::Write;
use vstd::prelude::*;
use vstd::string::to_string_from_display_ensures;
use vstd::string::StringExecFns;

use super::List;
use crate::utils::container::Container;

verus! {

/// `parts` joined with a comma and a space between each two of them.
pub open spec fn joined(parts: Seq<Seq<char>>) -> Seq<char>
    decreases parts.len(),
{
    if parts.len() == 0 {
        Seq::empty()
    } else if parts.len() == 1 {
        parts[0]
    } else {
        joined(parts.drop_last()) + seq![',', ' '] + parts.last()
    }
}

/// `parts` joined with a comma and a space between each two of them, between square brackets.
pub open spec fn bracketed(parts: Seq<Seq<char>>) -> Seq<char> {
    seq!['['] + joined(parts) + seq![']']
}

/// `parts[i]` is what `to_string` gives for `items[i]`, for each `i`.
pub open spec fn shown_as<T: Display>(items: Seq<T>, parts: Seq<String>) -> bool {
    &&& parts.len() == items.len()
    &&& forall|i: int|
        0 <= i < items.len() ==> to_string_from_display_ensures::<T>(&items[i], #[trigger] parts[i])
}

/// The views of `parts`.
pub open spec fn texts(parts: Seq<String>) -> Seq<Seq<char>> {
    parts.map_values(|p: String| p@)
}

/// The error a `Display` impl reports, `std::fmt::Error`.
#[verifier::external_type_specification]
#[verifier::external_body]
pub struct ExFmtError(std::fmt::Error);

/// `write!` of `x` through its `Display` into a new `String`. On success the text is the one
/// `to_string` gives for `x` (std implements `ToString` for `Display` types by exactly this write);
/// the error is the one that `x`'s `fmt` reported. When that happens depends on `x`'s `Display`
/// impl and is left unsaid.
#[verifier::external_body]
fn show_item<X: Display>(x: &X) -> (r: Result<String, std::fmt::Error>)
    ensures
        r matches Ok(text) ==> to_string_from_display_ensures::<X>(x, text),
{
    let mut text = String::new();
    match write!(text, "{}", x) {
        Ok(()) => Ok(text),
        Err(e) => Err(e),
    }
}

impl<T: Display, DataContainer: Container<T>> List<T, DataContainer> {
    /// The items, each as `to_string` shows it, separated by ", " and put between square
    /// brackets; or the error of the first item whose `Display` reports one, which can only
    /// happen on a list that is not empty.
    pub fn to_string(&self) -> (r: Result<String, std::fmt::Error>)
        ensures
            match r {
                Ok(text) => exists|parts: Seq<String>|
                    #[trigger] shown_as(self@, parts) && text@ == bracketed(texts(parts)),
                Err(_) => self@.len() > 0,
            },
    {
        let mut out = String::new();
        out.append("[");
        let mut first = true;
        let mut it = self.iter();
        let ghost s = self@;
        let ghost mut parts: Seq<String> = Seq::empty();
        proof {
            reveal_strlit("[");
            reveal_strlit(", ");
        }
        loop
            invariant_except_break
                s == self@,
                parts.len() <= s.len(),
                it@ == s.skip(parts.len() as int),
                first == (parts.len() == 0),
                shown_as(s.take(parts.len() as int), parts),
                out@ == seq!['['] + joined(texts(parts)),
                ", "@ == seq![',', ' '],
            ensures
                shown_as(s, parts),
                out@ == seq!['['] + joined(texts(parts)),
            decreases s.len() - parts.len(),
        {
            match it.next() {
                Some(v) => {
                    if !first {
                        out.append(", ");
                    }
                    let piece = match show_item(v) {
                        Ok(text) => text,
                        Err(e) => {
                            return Err(e);
                        },
                    };
                    out.append(piece.as_str());
                    first = false;
                    proof {
                        let k = parts.len() as int;
                        assert(s.skip(k)[0] == s[k]);
                        assert(s.skip(k + 1) == s.skip(k).drop_first());
                        let next_parts = parts.push(piece);
                        assert(texts(next_parts).drop_last() == texts(parts));
                        assert(s.take(k + 1).drop_last() == s.take(k));
                        assert(shown_as(s.take(k + 1), next_parts)) by {
                            assert forall|i: int| 0 <= i < k + 1 implies to_string_from_display_ensures::<T>(&s.take(k + 1)[i], #[trigger] next_parts[i]) by {
                                if i < k {
                                    assert(s.take(k + 1)[i] == s.take(k)[i]);
                                }
                            }
                        }
                        parts = next_parts;
                    }
                },
                None => {
                    assert(s.take(parts.len() as int) == s);
                    break ;
                },
            }
        }
        proof {
            reveal_strlit("]");
        }
        out.append("]");
        Ok(out)
    }
}

/// The total number of characters in `parts`.
pub open spec fn total_len(parts: Seq<Seq<char>>) -> nat
    decreases parts.len(),
{
    if parts.len() == 0 {
        0
    } else {
        total_len(parts.drop_last()) + parts.last().len()
    }
}

/// Joining one more part after at least one puts a comma and a space, then that part, after
/// what the others join to.
pub proof fn law_joined_push(parts: Seq<Seq<char>>, p: Seq<char>)
    requires
        parts.len() > 0,
    ensures
        joined(parts.push(p)) == joined(parts) + seq![',', ' '] + p,
{
    assert(parts.push(p).drop_last() =~= parts);
}

/// A single part joins to itself, and no parts join to nothing.
pub proof fn law_joined_single(p: Seq<char>)
    ensures
        joined(seq![p]) == p,
        joined(Seq::<Seq<char>>::empty()) == Seq::<char>::empty(),
{
}

/// Splitting the parts anywhere between two of them splits the joined text at a comma and a
/// space: the text is what the first parts join to, ", ", and what the rest join to.
pub proof fn law_joined_split(parts: Seq<Seq<char>>, i: int)
    requires
        0 < i < parts.len(),
    ensures
        joined(parts) == joined(parts.take(i)) + seq![',', ' '] + joined(parts.skip(i)),
    decreases parts.len(),
{
    let q = parts.drop_last();
    let p = parts.last();
    assert(parts == q.push(p));
    law_joined_push(q, p);
    if i == parts.len() - 1 {
        assert(parts.take(i) =~= q);
        assert(parts.skip(i) =~= seq![p]);
    } else {
        law_joined_split(q, i);
        assert(parts.take(i) =~= q.take(i));
        assert(parts.skip(i) =~= q.skip(i).push(p));
        law_joined_push(q.skip(i), p);
    }
}

/// The joined text holds every character of every part and two separator characters between each
/// two parts, and nothing else.
pub proof fn law_joined_length(parts: Seq<Seq<char>>)
    requires
        parts.len() > 0,
    ensures
        joined(parts).len() == total_len(parts) + 2 * (parts.len() - 1),
    decreases parts.len(),
{
    if parts.len() > 1 {
        law_joined_push(parts.drop_last(), parts.last());
        assert(parts.drop_last().push(parts.last()) =~= parts);
        law_joined_length(parts.drop_last());
    } else {
        assert(parts.drop_last().len() == 0);
        assert(total_len(parts.drop_last()) == 0);
        assert(parts.last() == parts[0]);
    }
}

/// What `to_string` gives on success is `[`, then the text of every item in order, each one as
/// `to_string` shows that item, with ", " between each two, then `]`: its length is that of all
/// the item texts, plus two for each item after the first, plus two for the brackets.
pub proof fn law_to_string_layout<T: Display, DataContainer: Container<T>>(
    l: List<T, DataContainer>,
    text: String,
)
    requires
        call_ensures(List::<T, DataContainer>::to_string, (&l,), Ok::<String, std::fmt::Error>(text)),
    ensures
        exists|parts: Seq<String>|
            {
                &&& #[trigger] shown_as(l@, parts)
                &&& text@.len() == 2 + total_len(texts(parts)) + if l@.len() == 0 {
                    0
                } else {
                    2 * (l@.len() - 1)
                }
                &&& text@[0] == '['
                &&& text@[text@.len() - 1] == ']'
                &&& text@.subrange(1, text@.len() - 1) == joined(texts(parts))
                &&& forall|i: int|
                    0 < i < l@.len() ==> text@.subrange(1, text@.len() - 1) == joined(
                        texts(parts).take(i),
                    ) + seq![',', ' '] + joined(texts(parts).skip(i))
            },
{
    let parts = choose|parts: Seq<String>|
        #[trigger] shown_as(l@, parts) && text@ == bracketed(texts(parts));
    let t = texts(parts);
    if l@.len() > 0 {
        law_joined_length(t);
    }
    assert(text@.subrange(1, text@.len() - 1) =~= joined(t));
    assert forall|i: int| 0 < i < l@.len() implies text@.subrange(1, text@.len() - 1) == joined(
        t.take(i),
    ) + seq![',', ' '] + joined(t.skip(i)) by {
        law_joined_split(t, i);
    }
}

} // verus!
