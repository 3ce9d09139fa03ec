//! Paths as text: the character-level reading of string lists and the
//! comma-joined form in which a session's files are stored.

use vstd::prelude::*;
use vstd::string::StringExecFns;

verus! {

/// The character sequences held by a list of strings, in order.
pub open spec fn texts(items: Seq<String>) -> Seq<Seq<char>> {
    Seq::new(items.len(), |i: int| items[i]@)
}

/// The parts written one after another with a single comma between
/// neighbours. Nothing is escaped and nothing is dropped: an empty part
/// still gets its comma, a repeated part is written again.
pub open spec fn comma_joined(parts: Seq<Seq<char>>) -> Seq<char>
    decreases parts.len(),
{
    if parts.len() == 0 {
        Seq::empty()
    } else if parts.len() == 1 {
        parts[0]
    } else {
        comma_joined(parts.drop_last()) + seq![','] + parts.last()
    }
}

/// `texts` distributes over concatenation.
pub proof fn lemma_texts_concat(left: Seq<String>, right: Seq<String>)
    ensures
        texts(left + right) == texts(left) + texts(right),
{
}

/// Joins the given paths with commas.
pub fn join_paths(files: &Vec<String>) -> (out: String)
    ensures
        out@ == comma_joined(texts(files@)),
{
    let mut out = String::new();
    let mut i: usize = 0;
    while i < files.len()
        invariant
            i <= files.len(),
            out@ == comma_joined(texts(files@).take(i as int)),
        decreases files.len() - i,
    {
        proof {
            assert(texts(files@).take(i as int + 1).drop_last() =~= texts(files@).take(i as int));
        }
        if i > 0 {
            proof {
                reveal_strlit(",");
            }
            out.append(",");
        }
        out.append(files[i].as_str());
        i += 1;
    }
    proof {
        assert(texts(files@).take(files.len() as int) =~= texts(files@));
    }
    out
}

} // verus!
