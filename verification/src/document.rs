//! The document updater: splices rendered content into the marker-delimited
//! region of a target document, creating the document and markers when
//! absent. Everything outside the marker pair is preserved verbatim, and the
//! operation is idempotent under identical input.

use vstd::prelude::*;
use vstd::string::StrSliceExecFns;
use vstd::string::StringExecFns;

use crate::text::{find_sub, lemma_find_is_first, match_at, spec_find, spec_find_from, str_chars};

verus! {

pub open spec fn spec_start_marker() -> Seq<char> {
    "[//]: # (CONFIG_DOCS_START)"@
}

pub open spec fn spec_end_marker() -> Seq<char> {
    "[//]: # (CONFIG_DOCS_END)"@
}

fn start_marker() -> (r: &'static str)
    ensures
        r@ == spec_start_marker(),
{
    "[//]: # (CONFIG_DOCS_START)"
}

fn end_marker() -> (r: &'static str)
    ensures
        r@ == spec_end_marker(),
{
    "[//]: # (CONFIG_DOCS_END)"
}

/// The blank-line padding around the spliced region.
pub open spec fn spec_padded(rendered: Seq<char>) -> Seq<char> {
    "\n\n"@ + rendered + "\n\n"@
}

/// What updating a document's text does: when both markers are present,
/// everything strictly between the end of the first start marker and the
/// first end marker is replaced by the padded rendered content; otherwise a
/// fresh marker pair around the rendered content is appended.
pub open spec fn spec_updated_content(content: Seq<char>, rendered: Seq<char>) -> Seq<char> {
    let sm = spec_start_marker();
    let em = spec_end_marker();
    match (spec_find(content, sm), spec_find(content, em)) {
        (Some(s), Some(e)) => content.take(s + sm.len()) + spec_padded(rendered) + content.skip(e),
        _ => content + "\n"@ + sm + spec_padded(rendered) + em,
    }
}

/// What updating the whole target does: an absent document is treated as a
/// minimal document holding only the marker pair.
pub open spec fn spec_update_target(existing: Option<Seq<char>>, rendered: Seq<char>) -> Seq<
    char,
> {
    match existing {
        Some(c) => spec_updated_content(c, rendered),
        None => spec_updated_content(
            spec_start_marker() + "\n\n"@ + spec_end_marker(),
            rendered,
        ),
    }
}

/// Splices rendered content into the marker-delimited region of a document.
/// `existing` is the document's current text, or `None` when the document
/// does not exist yet; the result is the full new text to be written back.
pub fn update_document_content(existing: Option<&String>, rendered: &str) -> (r: String)
    ensures
        r@ == spec_update_target(
            match existing {
                Some(c) => Some(c@),
                None => None,
            },
            rendered@,
        ),
{
    let content: String = match existing {
        Some(c) => (*c).clone(),
        None => {
            let mut c = String::new();
            c.append(start_marker());
            c.append("\n\n");
            c.append(end_marker());
            c
        },
    };
    let chars = str_chars(content.as_str());
    let sm_chars = str_chars(start_marker());
    let em_chars = str_chars(end_marker());
    let content_len = chars.len();
    let sm_len = sm_chars.len();
    let start_pos = find_sub(&chars, &sm_chars);
    let end_pos = find_sub(&chars, &em_chars);
    match (start_pos, end_pos) {
        (Some(s), Some(e)) => {
            proof {
                lemma_find_is_first(content@, spec_start_marker());
                lemma_find_is_first(content@, spec_end_marker());
                assert(s + sm_len <= content@.len());
            }
            let before = content.as_str().substring_char(0, s + sm_len);
            let after = content.as_str().substring_char(e, content_len);
            let mut r = before.to_owned();
            r.append("\n\n");
            r.append(rendered);
            r.append("\n\n");
            r.append(after);
            proof {
                assert(content@.subrange(0, s + sm_len as int) =~= content@.take(s + sm_len));
                assert(content@.subrange(e as int, content_len as int) =~= content@.skip(e as int));
            }
            r
        },
        _ => {
            let mut r = content;
            r.append("\n");
            r.append(start_marker());
            r.append("\n\n");
            r.append(rendered);
            r.append("\n\n");
            r.append(end_marker());
            r
        },
    }
}

/// Marker containment: when both markers are present, the document's text
/// outside the marker pair — the prefix through the start marker, and the
/// suffix from the end marker on — is identical before and after an update.
pub proof fn lemma_marker_containment(content: Seq<char>, rendered: Seq<char>)
    requires
        spec_find(content, spec_start_marker()) is Some,
        spec_find(content, spec_end_marker()) is Some,
    ensures
        ({
            let sm = spec_start_marker();
            let s = spec_find(content, sm)->Some_0;
            let e = spec_find(content, spec_end_marker())->Some_0;
            let out = spec_updated_content(content, rendered);
            &&& out.take(s + sm.len()) == content.take(s + sm.len())
            &&& out.skip(out.len() - (content.len() - e)) == content.skip(e)
        }),
{
    let sm = spec_start_marker();
    let em = spec_end_marker();
    let s = spec_find(content, sm)->Some_0;
    let e = spec_find(content, em)->Some_0;
    let out = spec_updated_content(content, rendered);
    lemma_find_is_first(content, sm);
    lemma_find_is_first(content, em);
    assert(out.take(s + sm.len()) =~= content.take(s + sm.len()));
    assert(out.skip(out.len() - (content.len() - e)) =~= content.skip(e));
}

/// Where the markers stand in an updated document, provided the spliced
/// region introduces no earlier occurrence of the end marker.
proof fn lemma_markers_in_updated(content: Seq<char>, rendered: Seq<char>)
    requires
        spec_markers_ordered(content),
        spec_rendered_clean(content, rendered),
    ensures
        ({
            let sm = spec_start_marker();
            let p = spec_find(content, sm)->Some_0;
            let out = spec_updated_content(content, rendered);
            &&& spec_find(out, sm) == Some(p)
            &&& spec_find(out, spec_end_marker()) == Some(p + sm.len() + spec_padded(
                rendered,
            ).len())
        }),
{
    let sm = spec_start_marker();
    let em = spec_end_marker();
    let p = spec_find(content, sm)->Some_0;
    let e = spec_find(content, em)->Some_0;
    let mid = spec_padded(rendered);
    let out = spec_updated_content(content, rendered);
    let q = p + sm.len() + mid.len();
    proof_marker_lengths();
    lemma_find_is_first(content, sm);
    lemma_find_is_first(content, em);
    assert(out =~= content.take(p + sm.len()) + mid + content.skip(e));

    // The start marker still first occurs at `p`.
    assert(out.subrange(p, p + sm.len() as int) =~= content.subrange(p, p + sm.len() as int));
    assert(match_at(out, sm, p));
    assert forall|t: int| 0 <= t < p implies !match_at(out, sm, t) by {
        if match_at(out, sm, t) {
            assert(out.subrange(t, t + sm.len() as int) =~= content.subrange(
                t,
                t + sm.len() as int,
            ));
            assert(match_at(content, sm, t));
        }
    }
    lemma_find_characterization(out, sm, p);

    // The end marker first occurs right after the spliced region.
    assert(out.subrange(q, q + em.len() as int) =~= content.subrange(e, e + em.len() as int));
    assert(match_at(out, em, q));
    assert(e + em.len() <= content.len());
    assert(p + sm.len() <= e);
    assert forall|t: int| 0 <= t < q implies !match_at(out, em, t) by {
        if match_at(out, em, t) {
            if t + em.len() <= p + sm.len() {
                assert forall|i: int| 0 <= i < em.len() implies #[trigger] out[t + i] == content[t + i] by {
                    assert(out[t + i] == content.take(p + sm.len() as int)[t + i]);
                }
                assert(out.subrange(t, t + em.len() as int) =~= content.subrange(
                    t,
                    t + em.len() as int,
                ));
                assert(match_at(content, em, t));
                assert(false);
            } else {
                assert(p + sm.len() - em.len() < t < p + sm.len() + mid.len());
                assert(!match_at(out, em, t));
                assert(false);
            }
        }
    }
    lemma_find_characterization(out, em, q);
}

proof fn proof_marker_lengths()
    ensures
        spec_start_marker().len() > 0,
        spec_end_marker().len() > 0,
{
    reveal_strlit("[//]: # (CONFIG_DOCS_START)");
    reveal_strlit("[//]: # (CONFIG_DOCS_END)");
}

/// Both markers are present and the whole start marker stands before the
/// first end marker.
pub open spec fn spec_markers_ordered(content: Seq<char>) -> bool {
    &&& spec_find(content, spec_start_marker()) is Some
    &&& spec_find(content, spec_end_marker()) is Some
    &&& spec_find(content, spec_start_marker())->Some_0 + spec_start_marker().len() <= spec_find(
        content,
        spec_end_marker(),
    )->Some_0
}

/// The spliced region introduces no occurrence of the end marker before the
/// one that delimits it: what holds whenever the rendered content does not
/// itself contain the marker tokens.
pub open spec fn spec_rendered_clean(content: Seq<char>, rendered: Seq<char>) -> bool {
    let sm = spec_start_marker();
    let em = spec_end_marker();
    let p = spec_find(content, sm)->Some_0;
    let out = spec_updated_content(content, rendered);
    forall|t: int|
        p + sm.len() - em.len() < t < p + sm.len() + spec_padded(rendered).len() ==> !match_at(
            out,
            em,
            t,
        )
}

/// Idempotence: updating a well-marked document a second time with the same
/// rendered content reproduces the first update's text exactly.
pub proof fn lemma_update_idempotent(content: Seq<char>, rendered: Seq<char>)
    requires
        spec_markers_ordered(content),
        spec_rendered_clean(content, rendered),
    ensures
        spec_updated_content(spec_updated_content(content, rendered), rendered)
            == spec_updated_content(content, rendered),
{
    let sm = spec_start_marker();
    let em = spec_end_marker();
    let p = spec_find(content, sm)->Some_0;
    let e = spec_find(content, em)->Some_0;
    let mid = spec_padded(rendered);
    let out = spec_updated_content(content, rendered);
    let q = p + sm.len() + mid.len();
    lemma_find_is_first(content, sm);
    lemma_find_is_first(content, em);
    lemma_markers_in_updated(content, rendered);
    let out2 = spec_updated_content(out, rendered);
    assert(0 <= p);
    assert(e + em.len() <= content.len());
    assert(p + sm.len() <= e);
    assert(out =~= content.take(p + sm.len()) + mid + content.skip(e));
    assert(out2 == out.take(p + sm.len()) + mid + out.skip(q));
    assert(content.take(p + sm.len()).len() == p + sm.len());
    assert forall|i: int| 0 <= i < p + sm.len() implies #[trigger] out[i] == content[i] by {
        assert(out[i] == content.take(p + sm.len() as int)[i]);
    }
    assert(out.take(p + sm.len()) =~= content.take(p + sm.len()));
    assert(out.len() - q == content.len() - e);
    assert forall|i: int| 0 <= i < content.len() - e implies #[trigger] out[q + i] == content[e + i] by {
        assert(out[q + i] == content.skip(e)[i]);
    }
    assert(out.skip(q) =~= content.skip(e));
    assert(out2 =~= out);
}

/// A characterization of the first occurrence: a match at `p` with no match
/// before it is what `spec_find` returns.
proof fn lemma_find_characterization(s: Seq<char>, pat: Seq<char>, p: int)
    requires
        match_at(s, pat, p),
        forall|t: int| 0 <= t < p ==> !match_at(s, pat, t),
    ensures
        spec_find(s, pat) == Some(p),
{
    lemma_find_from_reaches(s, pat, 0, p);
}

proof fn lemma_find_from_reaches(s: Seq<char>, pat: Seq<char>, from: int, p: int)
    requires
        0 <= from <= p,
        match_at(s, pat, p),
        forall|t: int| from <= t < p ==> !match_at(s, pat, t),
    ensures
        spec_find_from(s, pat, from) == Some(p),
    decreases p - from,
{
    if pat.len() == 0 {
        assert(s.subrange(from, from) =~= pat);
        assert(match_at(s, pat, from));
        assert(from == p);
    } else if from == p {
    } else {
        lemma_find_from_reaches(s, pat, from + 1, p);
    }
}

} // verus!
