//! Texts and lists of texts, and what selecting from a sequence keeps.

use vstd::prelude::*;
use vstd::utf8::encode_utf8;

verus! {

/// Length of the text in bytes, as UTF-8 and as the machine counts it.
pub open spec fn byte_length(text: Seq<char>) -> usize {
    encode_utf8(text).len() as usize
}

/// The text, or the empty text where there is none.
pub open spec fn text_or_empty(text: Option<Seq<char>>) -> Seq<char> {
    match text {
        Some(text) => text,
        None => Seq::empty(),
    }
}

/// A copy of the text, or the empty text where there is none.
pub fn clone_or_empty(text: &Option<String>) -> (copy: String)
    ensures
        copy@ == text_or_empty(text.deep_view()),
{
    match text {
        Some(text) => text.clone(),
        None => String::new(),
    }
}

/// Selects the texts other than `text`.
pub open spec fn other_than(text: Seq<char>) -> spec_fn(Seq<char>) -> bool {
    |t: Seq<char>| t != text
}

/// The texts without any occurrence of `text`.
pub open spec fn without_text(texts: Seq<Seq<char>>, text: Seq<char>) -> Seq<Seq<char>> {
    texts.filter(other_than(text))
}

/// The texts with `text` among them: appended unless it is there already.
pub open spec fn with_text(texts: Seq<Seq<char>>, text: Seq<char>) -> Seq<Seq<char>> {
    if texts.contains(text) {
        texts
    } else {
        texts.push(text)
    }
}

/// Filtering one element more keeps it or drops it.
pub proof fn lemma_filter_step<A>(s: Seq<A>, keep: spec_fn(A) -> bool, i: int)
    requires
        0 <= i < s.len(),
    ensures
        s.take(i + 1).filter(keep) == if keep(s[i]) {
            s.take(i).filter(keep).push(s[i])
        } else {
            s.take(i).filter(keep)
        },
{
    reveal(Seq::filter);
    assert(s.take(i + 1).drop_last() == s.take(i));
}

/// The positions in `s` of the elements that a selection keeps, in order.
pub open spec fn kept_positions<A>(s: Seq<A>, keep: spec_fn(A) -> bool) -> Seq<int>
    decreases s.len(),
{
    if s.len() == 0 {
        Seq::empty()
    } else if keep(s.last()) {
        kept_positions(s.drop_last(), keep).push(s.len() - 1)
    } else {
        kept_positions(s.drop_last(), keep)
    }
}

/// A selection is the elements at the kept positions: each selected element
/// stands in the sequence at its position, the positions rise, and every
/// element that is to be kept has a position.
pub proof fn lemma_kept_positions<A>(s: Seq<A>, keep: spec_fn(A) -> bool)
    ensures
        kept_positions(s, keep).len() == s.filter(keep).len(),
        forall|k: int|
            0 <= k < s.filter(keep).len() ==> {
                &&& 0 <= #[trigger] kept_positions(s, keep)[k] < s.len()
                &&& s.filter(keep)[k] == s[kept_positions(s, keep)[k]]
                &&& keep(s.filter(keep)[k])
            },
        forall|k: int, l: int|
            0 <= k < l < s.filter(keep).len() ==> #[trigger] kept_positions(s, keep)[k]
                < #[trigger] kept_positions(s, keep)[l],
        forall|i: int|
            0 <= i < s.len() && keep(#[trigger] s[i]) ==> exists|k: int|
                0 <= k < s.filter(keep).len() && #[trigger] kept_positions(s, keep)[k] == i,
    decreases s.len(),
{
    reveal(Seq::filter);
    if s.len() > 0 {
        let front = s.drop_last();
        lemma_kept_positions(front, keep);
        let positions = kept_positions(s, keep);
        let sub = kept_positions(front, keep);
        let kept = s.filter(keep);
        assert(forall|i: int| 0 <= i < front.len() ==> front[i] == s[i]);
        assert forall|i: int| 0 <= i < s.len() && keep(#[trigger] s[i]) implies exists|k: int|
            0 <= k < kept.len() && #[trigger] positions[k] == i by {
            if i < front.len() {
                assert(keep(front[i]));
                let k = choose|k: int|
                    0 <= k < front.filter(keep).len() && #[trigger] sub[k] == i;
                assert(positions[k] == i);
            } else {
                assert(positions[kept.len() - 1] == i);
            }
        }
    }
}

/// The texts without `text` do not hold it, and hold every other text that
/// was there and nothing else.
pub proof fn lemma_without_text(texts: Seq<Seq<char>>, text: Seq<char>)
    ensures
        !without_text(texts, text).contains(text),
        forall|t: Seq<char>| without_text(texts, text).contains(t) ==> texts.contains(t),
        forall|t: Seq<char>| texts.contains(t) && t != text ==> without_text(texts, text).contains(t),
{
    let kept = without_text(texts, text);
    if kept.contains(text) {
        let k = choose|k: int| 0 <= k < kept.len() && kept[k] == text;
        texts.lemma_filter_pred(other_than(text), k);
    }
    assert forall|t: Seq<char>| kept.contains(t) implies texts.contains(t) by {
        texts.lemma_filter_contains_rev(other_than(text), t);
    }
    assert forall|t: Seq<char>| texts.contains(t) && t != text implies kept.contains(t) by {
        let k = choose|k: int| 0 <= k < texts.len() && texts[k] == t;
        texts.lemma_filter_contains(other_than(text), k);
    }
}

/// The texts with `text` hold it, and beyond it only what was there.
pub proof fn lemma_with_text(texts: Seq<Seq<char>>, text: Seq<char>)
    ensures
        with_text(texts, text).contains(text),
        forall|t: Seq<char>| with_text(texts, text).contains(t) <==> texts.contains(t) || t == text,
{
    let grown = with_text(texts, text);
    if !texts.contains(text) {
        assert(grown[texts.len() as int] == text);
        assert forall|t: Seq<char>| grown.contains(t) implies texts.contains(t) || t == text by {
            let k = choose|k: int| 0 <= k < grown.len() && grown[k] == t;
            if k < texts.len() {
                assert(texts[k] == t);
            }
        }
        assert forall|t: Seq<char>| texts.contains(t) implies grown.contains(t) by {
            let k = choose|k: int| 0 <= k < texts.len() && texts[k] == t;
            assert(grown[k] == t);
        }
    }
}

/// Whether a list of texts holds this text.
pub fn contains_text(texts: &Vec<String>, text: &String) -> (found: bool)
    ensures
        found == texts.deep_view().contains(text@),
{
    let mut i: usize = 0;
    while i < texts.len()
        invariant
            i <= texts.len(),
            forall|j: int| 0 <= j < i ==> texts[j]@ != text@,
        decreases texts.len() - i,
    {
        if texts[i] == *text {
            assert(texts.deep_view()[i as int] == text@);
            return true;
        }
        i += 1;
    }
    false
}

/// The texts without any occurrence of `text`.
pub fn remove_text(texts: &Vec<String>, text: &String) -> (kept: Vec<String>)
    ensures
        kept.deep_view() == without_text(texts.deep_view(), text@),
{
    let ghost all = texts.deep_view();
    let mut kept: Vec<String> = Vec::new();
    let mut i: usize = 0;
    proof {
        reveal(Seq::filter);
        assert(kept.deep_view() =~= all.take(0).filter(other_than(text@)));
    }
    while i < texts.len()
        invariant
            i <= texts.len(),
            all == texts.deep_view(),
            kept.deep_view() == all.take(i as int).filter(other_than(text@)),
        decreases texts.len() - i,
    {
        proof {
            lemma_filter_step(all, other_than(text@), i as int);
        }
        if texts[i] != *text {
            let ghost before = kept.deep_view();
            kept.push(texts[i].clone());
            assert(kept.deep_view() =~= before.push(all[i as int]));
        }
        i += 1;
    }
    assert(all.take(i as int) == all);
    kept
}

/// The texts with `text` among them: appended unless it is there already.
pub fn add_text(texts: Vec<String>, text: String) -> (grown: Vec<String>)
    ensures
        grown.deep_view() == with_text(texts.deep_view(), text@),
{
    if contains_text(&texts, &text) {
        texts
    } else {
        let ghost before = texts.deep_view();
        let mut grown = texts;
        grown.push(text);
        assert(grown.deep_view() =~= before.push(text@));
        grown
    }
}

} // verus!
