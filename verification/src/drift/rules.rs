//! Drift detection rules.
//!
//! Hard rules flag definite drift: API-shape changes and removed functions.
//! Soft rules flag possible drift: doc-comment changes and behavioral
//! heuristics. Every rule requires related documentation to exist; a change
//! nothing documents raises no event.

use crate::drift::{drift_event_fresh, DriftEvent, DriftSeverity};
use crate::extract::code::CodeChunk;
use crate::extract::doc::DocChunk;
use crate::text;
use vstd::prelude::*;
use vstd::string::StrSliceExecFns;
use vstd::string::StringExecFns;

verus! {

/// The part of a text before the first occurrence of `c`; the whole text
/// when `c` does not occur.
pub open spec fn cut_at(s: Seq<char>, c: char) -> Seq<char> {
    if 0 <= text::find_char(s, c) <= s.len() {
        s.subrange(0, text::find_char(s, c))
    } else {
        s
    }
}

/// The name in one parameter item: what stands before a type annotation or
/// a default value, trimmed.
pub open spec fn param_name_of(t: Seq<char>) -> Seq<char> {
    text::trim_of(cut_at(cut_at(t, ':'), '='))
}

/// The parameter names of the comma-split pieces: each piece trimmed, blank
/// pieces dropped, and each name cut before `:` or `=`.
pub open spec fn names_from(pieces: Seq<Seq<char>>) -> Seq<Seq<char>>
    decreases pieces.len(),
{
    if pieces.len() == 0 {
        Seq::empty()
    } else {
        let rest = names_from(pieces.drop_last());
        let t = text::trim_of(pieces.last());
        if t.len() == 0 {
            rest
        } else {
            rest.push(param_name_of(t))
        }
    }
}

/// The parenthesis depth after one character: an opening parenthesis
/// deepens it, a closing one shallows it.
pub open spec fn paren_step(d: int, c: char) -> int {
    if c == '(' {
        d + 1
    } else if c == ')' {
        d - 1
    } else {
        d
    }
}

/// The parenthesis depth after the first `j` characters of `s`, starting
/// from depth `d`.
pub open spec fn depth_at(s: Seq<char>, d: int, j: int) -> int
    decreases j,
{
    if j <= 0 {
        d
    } else if j > s.len() {
        d
    } else {
        paren_step(depth_at(s, d, j - 1), s[j - 1])
    }
}

/// Index of the first comma of `s` standing at parenthesis depth zero,
/// counted from starting depth `d`; `s.len()` if there is none.
pub open spec fn find_top_comma(s: Seq<char>, d: int) -> int
    decreases s.len(),
{
    if s.len() == 0 {
        0
    } else if s[0] == ',' && d == 0 {
        0
    } else {
        1 + find_top_comma(s.drop_first(), paren_step(d, s[0]))
    }
}

proof fn lemma_depth_shift(s: Seq<char>, d: int, j: int)
    requires
        s.len() > 0,
        0 <= j <= s.len() - 1,
    ensures
        depth_at(s.drop_first(), paren_step(d, s[0]), j) == depth_at(s, d, j + 1),
    decreases j,
{
    let t = s.drop_first();
    let d1 = paren_step(d, s[0]);
    if j == 0 {
        assert(depth_at(t, d1, 0) == d1);
        assert(depth_at(s, d, 1) == paren_step(depth_at(s, d, 0), s[0]));
    } else {
        lemma_depth_shift(s, d, j - 1);
        assert(t[j - 1] == s[j]);
        assert(depth_at(t, d1, j) == paren_step(depth_at(t, d1, j - 1), t[j - 1]));
        assert(depth_at(s, d, j + 1) == paren_step(depth_at(s, d, j), s[j]));
    }
}

proof fn lemma_find_top_comma_unique(s: Seq<char>, d: int, i: int)
    requires
        0 <= i <= s.len(),
        i < s.len() ==> s[i] == ',' && depth_at(s, d, i) == 0,
        forall|j: int| 0 <= j < i ==> !(s[j] == ',' && depth_at(s, d, j) == 0),
    ensures
        find_top_comma(s, d) == i,
    decreases s.len(),
{
    if s.len() == 0 {
    } else if s[0] == ',' && d == 0 {
        if i > 0 {
            assert(s[0] == ',' && depth_at(s, d, 0) == 0);
        }
    } else {
        if i == 0 {
            assert(depth_at(s, d, 0) == d);
        }
        let t = s.drop_first();
        let d1 = paren_step(d, s[0]);
        if i - 1 < t.len() {
            assert(t[i - 1] == s[i]);
            lemma_depth_shift(s, d, i - 1);
        }
        assert forall|j: int| 0 <= j < i - 1 implies !(t[j] == ',' && depth_at(t, d1, j)
            == 0) by {
            assert(t[j] == s[j + 1]);
            lemma_depth_shift(s, d, j);
        }
        lemma_find_top_comma_unique(t, d1, i - 1);
    }
}

/// The pieces of `s` split at every comma standing at parenthesis depth
/// zero. Splitting an empty text yields one empty piece.
pub open spec fn split_top_commas(s: Seq<char>) -> Seq<Seq<char>>
    decreases s.len(),
{
    let i = find_top_comma(s, 0);
    if 0 <= i < s.len() {
        seq![s.subrange(0, i)] + split_top_commas(s.subrange(i + 1, s.len() as int))
    } else {
        seq![s]
    }
}

/// Index of the first comma at parenthesis depth zero at or after `from`,
/// or the length if there is none; the scan starts at depth zero.
fn find_top_comma_from(s: &str, from: usize) -> (r: usize)
    requires
        from <= s@.len(),
    ensures
        from <= r <= s@.len(),
        r - from == find_top_comma(s@.subrange(from as int, s@.len() as int), 0),
{
    let n = s.unicode_len();
    let ghost rest = s@.subrange(from as int, n as int);
    let mut j: usize = from;
    let mut d: i128 = 0;
    while j < n
        invariant
            from <= j <= n,
            n == s@.len(),
            rest == s@.subrange(from as int, n as int),
            d as int == depth_at(rest, 0, j - from),
            d as int >= from as int - j as int,
            d as int <= j as int - from as int,
            forall|t: int|
                0 <= t < j - from ==> !(rest[t] == ',' && depth_at(rest, 0, t) == 0),
        decreases n - j,
    {
        let ch = s.get_char(j);
        proof {
            assert(rest[j - from] == s@[j as int]);
        }
        if ch == ',' && d == 0 {
            proof {
                lemma_find_top_comma_unique(rest, 0, j - from);
            }
            return j;
        }
        if ch == '(' {
            d = d + 1;
        } else if ch == ')' {
            d = d - 1;
        }
        proof {
            assert(depth_at(rest, 0, j - from + 1) == paren_step(
                depth_at(rest, 0, j - from),
                rest[j - from],
            ));
        }
        j = j + 1;
    }
    proof {
        lemma_find_top_comma_unique(rest, 0, n - from);
    }
    n
}

/// Split a text at every comma standing at parenthesis depth zero.
fn split_top_level(s: &str) -> (r: Vec<String>)
    ensures
        r.deep_view() == split_top_commas(s@),
        r.len() >= 1,
{
    let n = s.unicode_len();
    let mut out: Vec<String> = Vec::new();
    let mut pos: usize = 0;
    proof {
        assert(s@.subrange(0, n as int) =~= s@);
        assert(out.deep_view() =~= Seq::<Seq<char>>::empty());
    }
    loop
        invariant
            0 <= pos <= n,
            n == s@.len(),
            split_top_commas(s@) == out.deep_view() + split_top_commas(
                s@.subrange(pos as int, n as int),
            ),
        decreases n - pos,
    {
        let ghost rest = s@.subrange(pos as int, n as int);
        let sep = find_top_comma_from(s, pos);
        proof {
            assert(find_top_comma(rest, 0) == sep - pos);
        }
        let piece = s.substring_char(pos, sep);
        proof {
            assert(rest.subrange(0, sep - pos) =~= piece@);
            if sep == n {
                assert(rest =~= piece@);
                assert(split_top_commas(rest) == seq![rest]);
            } else {
                assert(rest.subrange(sep - pos + 1, rest.len() as int) =~= s@.subrange(
                    sep + 1,
                    n as int,
                ));
            }
        }
        out.push(piece.to_owned());
        if sep == n {
            proof {
                assert(split_top_commas(s@) =~= out.deep_view());
            }
            return out;
        }
        pos = sep + 1;
        proof {
            assert(split_top_commas(s@) =~= out.deep_view() + split_top_commas(
                s@.subrange(pos as int, n as int),
            ));
        }
    }
}

/// Index one past the last occurrence of `c` in `s`, or 0 if there is none.
pub open spec fn rfind_end_of(s: Seq<char>, c: char) -> int
    decreases s.len(),
{
    if s.len() == 0 {
        0
    } else if s.last() == c {
        s.len() as int
    } else {
        rfind_end_of(s.drop_last(), c)
    }
}

pub proof fn lemma_rfind_end_unique(s: Seq<char>, c: char, i: int)
    requires
        0 <= i <= s.len(),
        i > 0 ==> s[i - 1] == c,
        forall|j: int| i <= j < s.len() ==> s[j] != c,
    ensures
        rfind_end_of(s, c) == i,
    decreases s.len(),
{
    if s.len() == 0 {
    } else if i == s.len() {
    } else {
        assert(s.last() != c);
        assert forall|j: int| i <= j < s.drop_last().len() implies s.drop_last()[j] != c by {
            assert(s.drop_last()[j] == s[j]);
        }
        if i > 0 {
            assert(s.drop_last()[i - 1] == s[i - 1]);
        }
        lemma_rfind_end_unique(s.drop_last(), c, i);
    }
}

/// The parameter names of a function signature: the items between the
/// first opening parenthesis and the last closing one, split at top-level
/// commas only, each trimmed and cut before a `:` type annotation or `=`
/// default value.
pub open spec fn param_names_of(sig: Seq<char>) -> Seq<Seq<char>> {
    let f = text::find_char(sig, '(');
    let start = if f < sig.len() {
        f
    } else {
        0
    };
    let rend = rfind_end_of(sig, ')');
    let end = if rend > 0 {
        rend - 1
    } else {
        sig.len() as int
    };
    if 0 <= start && start < end && end <= sig.len() {
        names_from(split_top_commas(sig.subrange(start + 1, end)))
    } else {
        Seq::empty()
    }
}

/// Extract parameter names from a function signature.
pub fn extract_parameters(signature: &str) -> (r: Vec<String>)
    ensures
        r.deep_view() == param_names_of(signature@),
{
    let n = signature.unicode_len();
    let fp = find_paren(signature);
    let start: usize = if fp < n {
        fp
    } else {
        0
    };
    let re = text::rfind_char_end(signature, ')');
    proof {
        lemma_rfind_end_unique(signature@, ')', re as int);
    }
    let end: usize = if re > 0 {
        re - 1
    } else {
        n
    };
    if start >= end {
        let r: Vec<String> = Vec::new();
        proof {
            assert(r.deep_view() =~= param_names_of(signature@));
        }
        return r;
    }
    let params_str = signature.substring_char(start + 1, end);
    let pieces = split_top_level(params_str);
    let ghost pseq = pieces.deep_view();
    let mut out: Vec<String> = Vec::new();
    let mut i: usize = 0;
    proof {
        assert(pseq.subrange(0, 0) =~= Seq::<Seq<char>>::empty());
        assert(out.deep_view() =~= names_from(pseq.subrange(0, 0)));
    }
    while i < pieces.len()
        invariant
            0 <= i <= pieces.len(),
            pseq == pieces.deep_view(),
            out.deep_view() == names_from(pseq.subrange(0, i as int)),
        decreases pieces.len() - i,
    {
        proof {
            assert(pseq.subrange(0, i as int + 1).drop_last() =~= pseq.subrange(0, i as int));
            assert(pseq.subrange(0, i as int + 1).last() == pieces@[i as int]@);
        }
        let t = text::trim_str(pieces[i].as_str());
        if t.unicode_len() > 0 {
            let tn = t.unicode_len();
            let c1 = text::find_char_from(t.as_str(), ':', 0);
            proof {
                text::lemma_find_char_unique(t@, ':', c1 as int);
            }
            let p1 = t.as_str().substring_char(0, c1);
            let c2 = text::find_char_from(p1, '=', 0);
            proof {
                text::lemma_find_char_unique(p1@, '=', c2 as int);
            }
            let p2 = p1.substring_char(0, c2);
            let name = text::trim_str(p2);
            proof {
                assert(name@ == param_name_of(t@));
                let pre = out.deep_view();
                assert(pre.push(name@) =~= names_from(pseq.subrange(0, i as int + 1)));
            }
            let ghost pre = out.deep_view();
            out.push(name);
            proof {
                assert(out.deep_view() =~= pre.push(name@));
            }
        }
        i = i + 1;
    }
    proof {
        assert(pseq.subrange(0, pieces@.len() as int) =~= pseq);
        assert(params_str@ == signature@.subrange(start as int + 1, end as int));
    }
    out
}

/// Index of the first opening parenthesis, or the length if there is none.
fn find_paren(signature: &str) -> (r: usize)
    ensures
        r == text::find_char(signature@, '('),
{
    let r = text::find_char_from(signature, '(', 0);
    proof {
        text::lemma_find_char_unique(signature@, '(', r as int);
    }
    r
}

/// The textual return type of a function signature: what follows the arrow,
/// trimmed and stripped of trailing body-opening braces; absent when the
/// signature has no arrow or nothing follows it.
pub open spec fn return_type_of(sig: Seq<char>) -> Option<Seq<char>> {
    let f = text::find_sub(sig, "->"@);
    if text::occurs_at(sig, "->"@, f) {
        let rt = text::trim_of(
            text::strip_trailing(
                text::trim_of(sig.subrange(f + "->"@.len(), sig.len() as int)),
                '{',
            ),
        );
        if rt.len() == 0 {
            None
        } else {
            Some(rt)
        }
    } else {
        None
    }
}

/// Extract the return type from a function signature.
pub fn extract_return_type(signature: &str) -> (r: Option<String>)
    ensures
        match (r, return_type_of(signature@)) {
            (Some(a), Some(b)) => a@ == b,
            (None, None) => true,
            _ => false,
        },
{
    let n = signature.unicode_len();
    let f = text::find_sub_str(signature, "->");
    proof {
        reveal_strlit("->");
        text::lemma_find_sub_bounds(signature@, "->"@);
    }
    if f >= n {
        proof {
            assert(!text::occurs_at(signature@, "->"@, f as int));
        }
        return None;
    }
    let rest = signature.substring_char(f + 2, n);
    let t1 = text::trim_str(rest);
    let t2 = text::strip_trailing_str(t1.as_str(), '{');
    let rt = text::trim_str(t2.as_str());
    if rt.unicode_len() == 0 {
        None
    } else {
        Some(rt)
    }
}

/// The terms whose appearance or disappearance hints at changed control
/// flow or error handling.
pub open spec fn has_behavior_keyword(s: Seq<char>) -> bool {
    ||| text::contains_seq(s, "default"@)
    ||| text::contains_seq(s, "error"@)
    ||| text::contains_seq(s, "panic"@)
    ||| text::contains_seq(s, "return"@)
    ||| text::contains_seq(s, "throw"@)
    ||| text::contains_seq(s, "raise"@)
    ||| text::contains_seq(s, "assert"@)
    ||| text::contains_seq(s, "expect"@)
    ||| text::contains_seq(s, "unwrap"@)
    ||| text::contains_seq(s, "if"@)
    ||| text::contains_seq(s, "else"@)
    ||| text::contains_seq(s, "match"@)
}

/// Whether the text holds any of the behavioral keywords.
pub fn contains_behavior_keyword(s: &str) -> (r: bool)
    ensures
        r == has_behavior_keyword(s@),
{
    ||| text::contains_str(s, "default")
    ||| text::contains_str(s, "error")
    ||| text::contains_str(s, "panic")
    ||| text::contains_str(s, "return")
    ||| text::contains_str(s, "throw")
    ||| text::contains_str(s, "raise")
    ||| text::contains_str(s, "assert")
    ||| text::contains_str(s, "expect")
    ||| text::contains_str(s, "unwrap")
    ||| text::contains_str(s, "if")
    ||| text::contains_str(s, "else")
    ||| text::contains_str(s, "match")
}

/// The elements of `xs` that do not occur in `ys`, in order.
pub open spec fn missing_from(xs: Seq<Seq<char>>, ys: Seq<Seq<char>>) -> Seq<Seq<char>>
    decreases xs.len(),
{
    if xs.len() == 0 {
        Seq::empty()
    } else {
        let rest = missing_from(xs.drop_last(), ys);
        if ys.contains(xs.last()) {
            rest
        } else {
            rest.push(xs.last())
        }
    }
}

/// The texts of `xs` that do not occur in `ys`, in order.
pub fn missing_strings(xs: &Vec<String>, ys: &Vec<String>) -> (r: Vec<String>)
    ensures
        r.deep_view() == missing_from(xs.deep_view(), ys.deep_view()),
{
    let ghost xseq = xs.deep_view();
    let mut out: Vec<String> = Vec::new();
    let mut i: usize = 0;
    proof {
        assert(xseq.subrange(0, 0) =~= Seq::<Seq<char>>::empty());
        assert(out.deep_view() =~= missing_from(xseq.subrange(0, 0), ys.deep_view()));
    }
    while i < xs.len()
        invariant
            0 <= i <= xs.len(),
            xseq == xs.deep_view(),
            out.deep_view() == missing_from(xseq.subrange(0, i as int), ys.deep_view()),
        decreases xs.len() - i,
    {
        proof {
            assert(xseq.subrange(0, i as int + 1).drop_last() =~= xseq.subrange(0, i as int));
            assert(xseq.subrange(0, i as int + 1).last() == xs@[i as int]@);
        }
        if !text::contains_string(ys, xs[i].as_str()) {
            let ghost pre = out.deep_view();
            out.push(xs[i].clone());
            proof {
                assert(out.deep_view() =~= pre.push(xs@[i as int]@));
            }
        }
        i = i + 1;
    }
    proof {
        assert(xseq.subrange(0, xs@.len() as int) =~= xseq);
    }
    out
}

/// The identifiers of related doc chunks, in order.
pub open spec fn doc_ids_of(docs: Seq<DocChunk>) -> Seq<Seq<char>> {
    docs.map_values(|d: DocChunk| d.id@)
}

/// The shape every rule-made event shares: a fresh identifier, the given
/// severity, texts and confidence, the given related chunks, no suggested
/// fix, and the `Pending` status.
pub open spec fn event_shape(
    e: DriftEvent,
    severity: DriftSeverity,
    desc: Seq<char>,
    evidence: Seq<char>,
    confidence: int,
    code_ids: Seq<Seq<char>>,
    doc_ids: Seq<Seq<char>>,
) -> bool {
    &&& e.id@.len() == 36
    &&& e.severity == severity
    &&& e.description@ == desc
    &&& e.evidence@ == evidence
    &&& e.confidence as int == confidence
    &&& e.related_code_chunks.deep_view() == code_ids
    &&& e.related_doc_chunks.deep_view() == doc_ids
    &&& e.suggested_fix is None
    &&& e.status is Pending
}

/// Append every related doc chunk to an event.
fn with_all_docs(e: DriftEvent, related_docs: &Vec<DocChunk>) -> (r: DriftEvent)
    ensures
        r.related_doc_chunks.deep_view() == e.related_doc_chunks.deep_view() + doc_ids_of(
            related_docs@,
        ),
        r.id == e.id,
        r.severity == e.severity,
        r.description == e.description,
        r.evidence == e.evidence,
        r.confidence == e.confidence,
        r.related_code_chunks == e.related_code_chunks,
        r.suggested_fix == e.suggested_fix,
        r.status == e.status,
{
    let ghost base = e.related_doc_chunks.deep_view();
    let mut ev = e;
    let mut i: usize = 0;
    proof {
        assert(doc_ids_of(related_docs@).subrange(0, 0) =~= Seq::<Seq<char>>::empty());
        assert(ev.related_doc_chunks.deep_view() =~= base + doc_ids_of(related_docs@).subrange(
            0,
            0,
        ));
    }
    while i < related_docs.len()
        invariant
            0 <= i <= related_docs.len(),
            ev.related_doc_chunks.deep_view() == base + doc_ids_of(related_docs@).subrange(
                0,
                i as int,
            ),
            ev.id == e.id,
            ev.severity == e.severity,
            ev.description == e.description,
            ev.evidence == e.evidence,
            ev.confidence == e.confidence,
            ev.related_code_chunks == e.related_code_chunks,
            ev.suggested_fix == e.suggested_fix,
            ev.status == e.status,
        decreases related_docs.len() - i,
    {
        ev = ev.with_doc_chunk(related_docs[i].id.as_str());
        proof {
            let ids = doc_ids_of(related_docs@);
            assert(ids[i as int] == related_docs@[i as int].id@);
            assert(ev.related_doc_chunks.deep_view() =~= base + ids.subrange(0, i as int + 1));
        }
        i = i + 1;
    }
    proof {
        assert(doc_ids_of(related_docs@).subrange(0, related_docs@.len() as int) =~= doc_ids_of(
            related_docs@,
        ));
    }
    ev
}

/// When the signature-change rule fires: both chunks exist, the new one is
/// public, both carry signatures, the signatures differ, and related
/// documentation exists.
pub open spec fn signature_change_applies(old: CodeChunk, new: CodeChunk, n_docs: int) -> bool {
    &&& new.is_public
    &&& match (old.signature, new.signature) {
        (Some(a), Some(b)) => a@ != b@,
        _ => false,
    }
    &&& n_docs > 0
}

/// The event the signature-change rule emits.
pub open spec fn signature_change_event(
    e: DriftEvent,
    old: CodeChunk,
    new: CodeChunk,
    docs: Seq<DocChunk>,
) -> bool {
    match (old.signature, new.signature) {
        (Some(a), Some(b)) => event_shape(
            e,
            DriftSeverity::High,
            "Public API signature changed: "@ + new.symbol_name@,
            "Signature changed from:\n  "@ + a@ + "\nto:\n  "@ + b@,
            950_000,
            seq![new.id@],
            doc_ids_of(docs),
        ),
        _ => false,
    }
}

/// Detect a changed public signature whose documentation did not move.
fn check_signature_change(
    old_chunk: Option<&CodeChunk>,
    new_chunk: Option<&CodeChunk>,
    related_docs: &Vec<DocChunk>,
) -> (r: Option<DriftEvent>)
    ensures
        match (old_chunk, new_chunk) {
            (Some(o), Some(n)) => {
                if signature_change_applies(*o, *n, related_docs@.len() as int) {
                    r matches Some(e) && signature_change_event(e, *o, *n, related_docs@)
                } else {
                    r is None
                }
            },
            _ => r is None,
        },
{
    match (old_chunk, new_chunk) {
        (Some(old), Some(new)) => {
            if !new.is_public {
                return None;
            }
            match (&old.signature, &new.signature) {
                (Some(old_sig), Some(new_sig)) => {
                    if text::str_eq(old_sig.as_str(), new_sig.as_str()) {
                        return None;
                    }
                    if related_docs.len() == 0 {
                        return None;
                    }
                    let mut desc = String::from_str("Public API signature changed: ");
                    desc.append(new.symbol_name.as_str());
                    let mut evidence = String::from_str("Signature changed from:\n  ");
                    evidence.append(old_sig.as_str());
                    evidence.append("\nto:\n  ");
                    evidence.append(new_sig.as_str());
                    let event = DriftEvent::new(
                        DriftSeverity::High,
                        desc.as_str(),
                        evidence.as_str(),
                        950_000,
                    ).with_code_chunk(new.id.as_str());
                    let event = with_all_docs(event, related_docs);
                    proof {
                        assert(event.related_code_chunks.deep_view() =~= seq![new.id@]);
                        assert(Seq::<Seq<char>>::empty() + doc_ids_of(related_docs@)
                            =~= doc_ids_of(related_docs@));
                    }
                    Some(event)
                },
                _ => None,
            }
        },
        _ => None,
    }
}

/// When the removed-function rule fires: the old chunk existed and was
/// public, no new chunk replaces it, and related documentation exists.
pub open spec fn removed_function_applies(
    old: CodeChunk,
    new_chunk: Option<&CodeChunk>,
    n_docs: int,
) -> bool {
    &&& new_chunk is None
    &&& old.is_public
    &&& n_docs > 0
}

/// The event the removed-function rule emits.
pub open spec fn removed_function_event(e: DriftEvent, old: CodeChunk, docs: Seq<DocChunk>) -> bool {
    event_shape(
        e,
        DriftSeverity::Critical,
        "Documented function removed: "@ + old.symbol_name@,
        "Function '"@ + old.symbol_name@ + "' was removed but is still documented"@,
        1_000_000,
        seq![old.id@],
        doc_ids_of(docs),
    )
}

/// Detect a removed public function that documentation still references.
fn check_removed_function(
    old_chunk: Option<&CodeChunk>,
    new_chunk: Option<&CodeChunk>,
    related_docs: &Vec<DocChunk>,
) -> (r: Option<DriftEvent>)
    ensures
        match old_chunk {
            Some(o) => {
                if removed_function_applies(*o, new_chunk, related_docs@.len() as int) {
                    r matches Some(e) && removed_function_event(e, *o, related_docs@)
                } else {
                    r is None
                }
            },
            None => r is None,
        },
{
    match old_chunk {
        Some(old) => {
            if new_chunk.is_some() {
                return None;
            }
            if !old.is_public {
                return None;
            }
            if related_docs.len() == 0 {
                return None;
            }
            let mut desc = String::from_str("Documented function removed: ");
            desc.append(old.symbol_name.as_str());
            let mut evidence = String::from_str("Function '");
            evidence.append(old.symbol_name.as_str());
            evidence.append("' was removed but is still documented");
            let event = DriftEvent::new(
                DriftSeverity::Critical,
                desc.as_str(),
                evidence.as_str(),
                1_000_000,
            ).with_code_chunk(old.id.as_str());
            let event = with_all_docs(event, related_docs);
            proof {
                assert(event.related_code_chunks.deep_view() =~= seq![old.id@]);
                assert(Seq::<Seq<char>>::empty() + doc_ids_of(related_docs@) =~= doc_ids_of(
                    related_docs@,
                ));
            }
            Some(event)
        },
        None => None,
    }
}

/// When the parameter-change rule fires: both chunks exist, the new one is
/// public, both carry signatures, parameter names were added or removed,
/// and related documentation exists.
pub open spec fn parameter_change_applies(old: CodeChunk, new: CodeChunk, n_docs: int) -> bool {
    &&& new.is_public
    &&& match (old.signature, new.signature) {
        (Some(a), Some(b)) => {
            let op = param_names_of(a@);
            let np = param_names_of(b@);
            missing_from(np, op).len() > 0 || missing_from(op, np).len() > 0
        },
        _ => false,
    }
    &&& n_docs > 0
}

/// The evidence text of a parameter change: the added names, the removed
/// names, each line only when its list is not empty.
pub open spec fn parameter_change_evidence(added: Seq<Seq<char>>, removed: Seq<Seq<char>>) -> Seq<
    char,
> {
    let parts: Seq<Seq<char>> = (if added.len() > 0 {
        seq![("Added parameters: "@ + text::join_with_sep(added, ", "@))]
    } else {
        Seq::empty()
    }) + (if removed.len() > 0 {
        seq![("Removed parameters: "@ + text::join_with_sep(removed, ", "@))]
    } else {
        Seq::empty()
    });
    text::join_with_sep(parts, "\n"@)
}

/// The event the parameter-change rule emits.
pub open spec fn parameter_change_event(
    e: DriftEvent,
    old: CodeChunk,
    new: CodeChunk,
    docs: Seq<DocChunk>,
) -> bool {
    match (old.signature, new.signature) {
        (Some(a), Some(b)) => {
            let op = param_names_of(a@);
            let np = param_names_of(b@);
            event_shape(
                e,
                DriftSeverity::High,
                "Parameters changed for: "@ + new.symbol_name@,
                parameter_change_evidence(missing_from(np, op), missing_from(op, np)),
                900_000,
                seq![new.id@],
                doc_ids_of(docs),
            )
        },
        _ => false,
    }
}

/// Detect added or removed parameter names on a documented public function.
fn check_parameter_change(
    old_chunk: Option<&CodeChunk>,
    new_chunk: Option<&CodeChunk>,
    related_docs: &Vec<DocChunk>,
) -> (r: Option<DriftEvent>)
    ensures
        match (old_chunk, new_chunk) {
            (Some(o), Some(n)) => {
                if parameter_change_applies(*o, *n, related_docs@.len() as int) {
                    r matches Some(e) && parameter_change_event(e, *o, *n, related_docs@)
                } else {
                    r is None
                }
            },
            _ => r is None,
        },
{
    match (old_chunk, new_chunk) {
        (Some(old), Some(new)) => {
            if !new.is_public {
                return None;
            }
            match (&old.signature, &new.signature) {
                (Some(old_sig), Some(new_sig)) => {
                    let old_params = extract_parameters(old_sig.as_str());
                    let new_params = extract_parameters(new_sig.as_str());
                    let added = missing_strings(&new_params, &old_params);
                    let removed = missing_strings(&old_params, &new_params);
                    if added.len() == 0 && removed.len() == 0 {
                        return None;
                    }
                    if related_docs.len() == 0 {
                        return None;
                    }
                    let mut parts: Vec<String> = Vec::new();
                    if added.len() > 0 {
                        let mut line = String::from_str("Added parameters: ");
                        line.append(text::join_strings(&added, ", ").as_str());
                        parts.push(line);
                    }
                    if removed.len() > 0 {
                        let mut line = String::from_str("Removed parameters: ");
                        line.append(text::join_strings(&removed, ", ").as_str());
                        parts.push(line);
                    }
                    let evidence = text::join_strings(&parts, "\n");
                    proof {
                        let op = param_names_of(old_sig@);
                        let np = param_names_of(new_sig@);
                        let ap: Seq<Seq<char>> = if missing_from(np, op).len() > 0 {
                            seq![("Added parameters: "@ + text::join_with_sep(
                                missing_from(np, op),
                                ", "@,
                            ))]
                        } else {
                            Seq::empty()
                        };
                        let rp: Seq<Seq<char>> = if missing_from(op, np).len() > 0 {
                            seq![("Removed parameters: "@ + text::join_with_sep(
                                missing_from(op, np),
                                ", "@,
                            ))]
                        } else {
                            Seq::empty()
                        };
                        assert(parts.deep_view() =~= ap + rp);
                        assert(evidence@ == parameter_change_evidence(
                            missing_from(np, op),
                            missing_from(op, np),
                        ));
                    }
                    let mut desc = String::from_str("Parameters changed for: ");
                    desc.append(new.symbol_name.as_str());
                    let event = DriftEvent::new(
                        DriftSeverity::High,
                        desc.as_str(),
                        evidence.as_str(),
                        900_000,
                    ).with_code_chunk(new.id.as_str());
                    let event = with_all_docs(event, related_docs);
                    proof {
                        assert(event.related_code_chunks.deep_view() =~= seq![new.id@]);
                        assert(Seq::<Seq<char>>::empty() + doc_ids_of(related_docs@)
                            =~= doc_ids_of(related_docs@));
                    }
                    Some(event)
                },
                _ => None,
            }
        },
        _ => None,
    }
}

/// When the return-type-change rule fires: both chunks exist, the new one
/// is public, both carry signatures, the textual return types differ, and
/// related documentation exists.
pub open spec fn return_type_change_applies(old: CodeChunk, new: CodeChunk, n_docs: int) -> bool {
    &&& new.is_public
    &&& match (old.signature, new.signature) {
        (Some(a), Some(b)) => return_type_of(a@) != return_type_of(b@),
        _ => false,
    }
    &&& n_docs > 0
}

/// A return type as it stands in evidence text: the type itself, or a word
/// marking its absence.
pub open spec fn return_type_text(rt: Option<Seq<char>>) -> Seq<char> {
    match rt {
        Some(t) => t,
        None => "none"@,
    }
}

/// The event the return-type-change rule emits.
pub open spec fn return_type_change_event(
    e: DriftEvent,
    old: CodeChunk,
    new: CodeChunk,
    docs: Seq<DocChunk>,
) -> bool {
    match (old.signature, new.signature) {
        (Some(a), Some(b)) => event_shape(
            e,
            DriftSeverity::High,
            "Return type changed for: "@ + new.symbol_name@,
            "Return type changed from '"@ + return_type_text(return_type_of(a@)) + "' to '"@
                + return_type_text(return_type_of(b@)) + "'"@,
            900_000,
            seq![new.id@],
            doc_ids_of(docs),
        ),
        _ => false,
    }
}

/// Detect a changed textual return type on a documented public function.
fn check_return_type_change(
    old_chunk: Option<&CodeChunk>,
    new_chunk: Option<&CodeChunk>,
    related_docs: &Vec<DocChunk>,
) -> (r: Option<DriftEvent>)
    ensures
        match (old_chunk, new_chunk) {
            (Some(o), Some(n)) => {
                if return_type_change_applies(*o, *n, related_docs@.len() as int) {
                    r matches Some(e) && return_type_change_event(e, *o, *n, related_docs@)
                } else {
                    r is None
                }
            },
            _ => r is None,
        },
{
    match (old_chunk, new_chunk) {
        (Some(old), Some(new)) => {
            if !new.is_public {
                return None;
            }
            match (&old.signature, &new.signature) {
                (Some(old_sig), Some(new_sig)) => {
                    let old_ret = extract_return_type(old_sig.as_str());
                    let new_ret = extract_return_type(new_sig.as_str());
                    if text::opt_str_eq(&old_ret, &new_ret) {
                        return None;
                    }
                    if related_docs.len() == 0 {
                        return None;
                    }
                    let mut evidence = String::from_str("Return type changed from '");
                    match &old_ret {
                        Some(t) => evidence.append(t.as_str()),
                        None => evidence.append("none"),
                    }
                    evidence.append("' to '");
                    match &new_ret {
                        Some(t) => evidence.append(t.as_str()),
                        None => evidence.append("none"),
                    }
                    evidence.append("'");
                    let mut desc = String::from_str("Return type changed for: ");
                    desc.append(new.symbol_name.as_str());
                    let event = DriftEvent::new(
                        DriftSeverity::High,
                        desc.as_str(),
                        evidence.as_str(),
                        900_000,
                    ).with_code_chunk(new.id.as_str());
                    let event = with_all_docs(event, related_docs);
                    proof {
                        assert(event.related_code_chunks.deep_view() =~= seq![new.id@]);
                        assert(Seq::<Seq<char>>::empty() + doc_ids_of(related_docs@)
                            =~= doc_ids_of(related_docs@));
                    }
                    Some(event)
                },
                _ => None,
            }
        },
        _ => None,
    }
}

/// When the doc-comment-change rule fires: both chunks exist and are
/// public, both carry doc comments, the comments differ by more than
/// whitespace, and related documentation exists.
pub open spec fn doc_comment_change_applies(old: CodeChunk, new: CodeChunk, n_docs: int) -> bool {
    &&& old.is_public
    &&& new.is_public
    &&& match (old.doc_comment, new.doc_comment) {
        (Some(a), Some(b)) => a@ != b@ && text::remove_ws(a@) != text::remove_ws(b@),
        _ => false,
    }
    &&& n_docs > 0
}

/// The event the doc-comment-change rule emits.
pub open spec fn doc_comment_change_event(
    e: DriftEvent,
    new: CodeChunk,
    docs: Seq<DocChunk>,
) -> bool {
    event_shape(
        e,
        DriftSeverity::Medium,
        "Doc comment changed: "@ + new.symbol_name@,
        "Doc comment changed for '"@ + new.symbol_name@
            + "'. External documentation may need update."@,
        700_000,
        seq![new.id@],
        doc_ids_of(docs),
    )
}

/// Detect a changed doc comment on a documented public symbol, ignoring
/// purely cosmetic reformatting.
fn check_doc_comment_change(
    old_chunk: Option<&CodeChunk>,
    new_chunk: Option<&CodeChunk>,
    related_docs: &Vec<DocChunk>,
) -> (r: Option<DriftEvent>)
    ensures
        match (old_chunk, new_chunk) {
            (Some(o), Some(n)) => {
                if doc_comment_change_applies(*o, *n, related_docs@.len() as int) {
                    r matches Some(e) && doc_comment_change_event(e, *n, related_docs@)
                } else {
                    r is None
                }
            },
            _ => r is None,
        },
{
    match (old_chunk, new_chunk) {
        (Some(old), Some(new)) => {
            if !old.is_public || !new.is_public {
                return None;
            }
            match (&old.doc_comment, &new.doc_comment) {
                (Some(old_doc), Some(new_doc)) => {
                    if text::str_eq(old_doc.as_str(), new_doc.as_str()) {
                        return None;
                    }
                    let old_norm = text::remove_ws_chars(old_doc.as_str());
                    let new_norm = text::remove_ws_chars(new_doc.as_str());
                    if text::chars_eq(&old_norm, &new_norm) {
                        return None;
                    }
                    if related_docs.len() == 0 {
                        return None;
                    }
                    let mut desc = String::from_str("Doc comment changed: ");
                    desc.append(new.symbol_name.as_str());
                    let mut evidence = String::from_str("Doc comment changed for '");
                    evidence.append(new.symbol_name.as_str());
                    evidence.append("'. External documentation may need update.");
                    let event = DriftEvent::new(
                        DriftSeverity::Medium,
                        desc.as_str(),
                        evidence.as_str(),
                        700_000,
                    ).with_code_chunk(new.id.as_str());
                    let event = with_all_docs(event, related_docs);
                    proof {
                        assert(event.related_code_chunks.deep_view() =~= seq![new.id@]);
                        assert(Seq::<Seq<char>>::empty() + doc_ids_of(related_docs@)
                            =~= doc_ids_of(related_docs@));
                    }
                    Some(event)
                },
                _ => None,
            }
        },
        _ => None,
    }
}

/// When the behavior-change rule fires: both chunks exist, the new one is
/// public, the signature is unchanged while the raw content changed, the
/// presence of a behavioral keyword flipped, and related documentation
/// exists. A coarse heuristic by design.
pub open spec fn behavior_change_applies(old: CodeChunk, new: CodeChunk, n_docs: int) -> bool {
    &&& new.is_public
    &&& match (old.signature, new.signature) {
        (Some(a), Some(b)) => a@ == b@,
        (None, None) => true,
        _ => false,
    }
    &&& old.content@ != new.content@
    &&& has_behavior_keyword(old.content@) != has_behavior_keyword(new.content@)
    &&& n_docs > 0
}

/// The event the behavior-change rule emits.
pub open spec fn behavior_change_event(e: DriftEvent, new: CodeChunk, docs: Seq<DocChunk>) -> bool {
    event_shape(
        e,
        DriftSeverity::Low,
        "Potential behavior change: "@ + new.symbol_name@,
        "Implementation of '"@ + new.symbol_name@ + "' changed. Behavior may have changed."@,
        500_000,
        seq![new.id@],
        doc_ids_of(docs),
    )
}

/// Detect a potential behavioral change behind an unchanged signature.
fn check_behavior_change(
    old_chunk: Option<&CodeChunk>,
    new_chunk: Option<&CodeChunk>,
    related_docs: &Vec<DocChunk>,
) -> (r: Option<DriftEvent>)
    ensures
        match (old_chunk, new_chunk) {
            (Some(o), Some(n)) => {
                if behavior_change_applies(*o, *n, related_docs@.len() as int) {
                    r matches Some(e) && behavior_change_event(e, *n, related_docs@)
                } else {
                    r is None
                }
            },
            _ => r is None,
        },
{
    match (old_chunk, new_chunk) {
        (Some(old), Some(new)) => {
            if !new.is_public {
                return None;
            }
            if !text::opt_str_eq(&old.signature, &new.signature) {
                return None;
            }
            if text::str_eq(old.content.as_str(), new.content.as_str()) {
                return None;
            }
            let old_kw = contains_behavior_keyword(old.content.as_str());
            let new_kw = contains_behavior_keyword(new.content.as_str());
            if old_kw == new_kw {
                return None;
            }
            if related_docs.len() == 0 {
                return None;
            }
            let mut desc = String::from_str("Potential behavior change: ");
            desc.append(new.symbol_name.as_str());
            let mut evidence = String::from_str("Implementation of '");
            evidence.append(new.symbol_name.as_str());
            evidence.append("' changed. Behavior may have changed.");
            let event = DriftEvent::new(
                DriftSeverity::Low,
                desc.as_str(),
                evidence.as_str(),
                500_000,
            ).with_code_chunk(new.id.as_str());
            let event = with_all_docs(event, related_docs);
            proof {
                assert(event.related_code_chunks.deep_view() =~= seq![new.id@]);
                assert(Seq::<Seq<char>>::empty() + doc_ids_of(related_docs@) =~= doc_ids_of(
                    related_docs@,
                ));
            }
            Some(event)
        },
        _ => None,
    }
}

/// The rules this crate knows, one kind per check.
#[derive(Debug, Clone, Copy, PartialEq, Eq, Structural)]
pub enum RuleKind {
    /// A public signature changed while documentation references the symbol.
    SignatureChange,
    /// A documented public function disappeared.
    RemovedFunction,
    /// Parameter names were added or removed.
    ParameterChange,
    /// The textual return type changed.
    ReturnTypeChange,
    /// A doc comment changed by more than whitespace.
    DocCommentChange,
    /// A behavioral keyword appeared or disappeared behind an unchanged
    /// signature.
    BehaviorChange,
}

/// Whether a rule fires for the given change.
pub open spec fn rule_applies(
    kind: RuleKind,
    old_chunk: Option<&CodeChunk>,
    new_chunk: Option<&CodeChunk>,
    docs: Seq<DocChunk>,
) -> bool {
    match kind {
        RuleKind::SignatureChange => match (old_chunk, new_chunk) {
            (Some(o), Some(n)) => signature_change_applies(*o, *n, docs.len() as int),
            _ => false,
        },
        RuleKind::RemovedFunction => match old_chunk {
            Some(o) => removed_function_applies(*o, new_chunk, docs.len() as int),
            None => false,
        },
        RuleKind::ParameterChange => match (old_chunk, new_chunk) {
            (Some(o), Some(n)) => parameter_change_applies(*o, *n, docs.len() as int),
            _ => false,
        },
        RuleKind::ReturnTypeChange => match (old_chunk, new_chunk) {
            (Some(o), Some(n)) => return_type_change_applies(*o, *n, docs.len() as int),
            _ => false,
        },
        RuleKind::DocCommentChange => match (old_chunk, new_chunk) {
            (Some(o), Some(n)) => doc_comment_change_applies(*o, *n, docs.len() as int),
            _ => false,
        },
        RuleKind::BehaviorChange => match (old_chunk, new_chunk) {
            (Some(o), Some(n)) => behavior_change_applies(*o, *n, docs.len() as int),
            _ => false,
        },
    }
}

/// Whether an event is the one a firing rule emits for the given change.
pub open spec fn rule_event(
    e: DriftEvent,
    kind: RuleKind,
    old_chunk: Option<&CodeChunk>,
    new_chunk: Option<&CodeChunk>,
    docs: Seq<DocChunk>,
) -> bool {
    match kind {
        RuleKind::SignatureChange => match (old_chunk, new_chunk) {
            (Some(o), Some(n)) => signature_change_event(e, *o, *n, docs),
            _ => false,
        },
        RuleKind::RemovedFunction => match old_chunk {
            Some(o) => removed_function_event(e, *o, docs),
            None => false,
        },
        RuleKind::ParameterChange => match (old_chunk, new_chunk) {
            (Some(o), Some(n)) => parameter_change_event(e, *o, *n, docs),
            _ => false,
        },
        RuleKind::ReturnTypeChange => match (old_chunk, new_chunk) {
            (Some(o), Some(n)) => return_type_change_event(e, *o, *n, docs),
            _ => false,
        },
        RuleKind::DocCommentChange => match new_chunk {
            Some(n) => doc_comment_change_event(e, *n, docs),
            None => false,
        },
        RuleKind::BehaviorChange => match new_chunk {
            Some(n) => behavior_change_event(e, *n, docs),
            None => false,
        },
    }
}

/// The kind sequence a firing rule contributes: itself when it fires,
/// nothing otherwise.
pub open spec fn fired_one(
    kind: RuleKind,
    old_chunk: Option<&CodeChunk>,
    new_chunk: Option<&CodeChunk>,
    docs: Seq<DocChunk>,
) -> Seq<RuleKind> {
    if rule_applies(kind, old_chunk, new_chunk, docs) {
        seq![kind]
    } else {
        Seq::empty()
    }
}

/// The hard rules that fire for a change, in the fixed order of the hard
/// rule list.
pub open spec fn fired_hard(
    old_chunk: Option<&CodeChunk>,
    new_chunk: Option<&CodeChunk>,
    docs: Seq<DocChunk>,
) -> Seq<RuleKind> {
    fired_one(RuleKind::SignatureChange, old_chunk, new_chunk, docs) + fired_one(
        RuleKind::RemovedFunction,
        old_chunk,
        new_chunk,
        docs,
    ) + fired_one(RuleKind::ParameterChange, old_chunk, new_chunk, docs) + fired_one(
        RuleKind::ReturnTypeChange,
        old_chunk,
        new_chunk,
        docs,
    )
}

/// The soft rules that fire for a change, in the fixed order of the soft
/// rule list.
pub open spec fn fired_soft(
    old_chunk: Option<&CodeChunk>,
    new_chunk: Option<&CodeChunk>,
    docs: Seq<DocChunk>,
) -> Seq<RuleKind> {
    fired_one(RuleKind::DocCommentChange, old_chunk, new_chunk, docs) + fired_one(
        RuleKind::BehaviorChange,
        old_chunk,
        new_chunk,
        docs,
    )
}

/// Whether a list of events carries exactly one event per fired kind, in
/// order.
pub open spec fn events_match_fired(
    events: Seq<DriftEvent>,
    fired: Seq<RuleKind>,
    old_chunk: Option<&CodeChunk>,
    new_chunk: Option<&CodeChunk>,
    docs: Seq<DocChunk>,
) -> bool {
    &&& events.len() == fired.len()
    &&& forall|i: int|
        0 <= i < fired.len() ==> rule_event(#[trigger] events[i], fired[i], old_chunk, new_chunk, docs)
}

/// The fixed, ordered collection of hard drift rules.
pub struct HardDriftRules {}

impl HardDriftRules {
    /// Create the default hard drift rules: signature change, removed
    /// function, parameter change, return type change, in that order.
    pub fn new() -> (r: HardDriftRules) {
        HardDriftRules {  }
    }

    /// Check all hard rules against a code change, in the fixed order.
    pub fn check_code_change(
        &self,
        old_chunk: Option<&CodeChunk>,
        new_chunk: Option<&CodeChunk>,
        related_docs: &Vec<DocChunk>,
    ) -> (r: Vec<DriftEvent>)
        ensures
            events_match_fired(
                r@,
                fired_hard(old_chunk, new_chunk, related_docs@),
                old_chunk,
                new_chunk,
                related_docs@,
            ),
    {
        let mut events: Vec<DriftEvent> = Vec::new();
        match check_signature_change(old_chunk, new_chunk, related_docs) {
            Some(e) => events.push(e),
            None => {},
        }
        match check_removed_function(old_chunk, new_chunk, related_docs) {
            Some(e) => events.push(e),
            None => {},
        }
        match check_parameter_change(old_chunk, new_chunk, related_docs) {
            Some(e) => events.push(e),
            None => {},
        }
        match check_return_type_change(old_chunk, new_chunk, related_docs) {
            Some(e) => events.push(e),
            None => {},
        }
        proof {
            let fired = fired_hard(old_chunk, new_chunk, related_docs@);
            assert(events@.len() == fired.len());
        }
        events
    }

    /// Check all hard rules against a doc change. The hard rules only read
    /// code changes, so no event ever comes of this; it stands for
    /// extensibility.
    pub fn check_doc_change(
        &self,
        old_chunk: Option<&DocChunk>,
        new_chunk: Option<&DocChunk>,
        related_code: &Vec<CodeChunk>,
    ) -> (r: Vec<DriftEvent>)
        ensures
            r@.len() == 0,
    {
        Vec::new()
    }
}

/// The fixed, ordered collection of soft drift rules.
pub struct SoftDriftRules {}

impl SoftDriftRules {
    /// Create the default soft drift rules: doc-comment change, behavior
    /// change, in that order.
    pub fn new() -> (r: SoftDriftRules) {
        SoftDriftRules {  }
    }

    /// Check all soft rules against a code change, in the fixed order.
    pub fn check_code_change(
        &self,
        old_chunk: Option<&CodeChunk>,
        new_chunk: Option<&CodeChunk>,
        related_docs: &Vec<DocChunk>,
    ) -> (r: Vec<DriftEvent>)
        ensures
            events_match_fired(
                r@,
                fired_soft(old_chunk, new_chunk, related_docs@),
                old_chunk,
                new_chunk,
                related_docs@,
            ),
    {
        let mut events: Vec<DriftEvent> = Vec::new();
        match check_doc_comment_change(old_chunk, new_chunk, related_docs) {
            Some(e) => events.push(e),
            None => {},
        }
        match check_behavior_change(old_chunk, new_chunk, related_docs) {
            Some(e) => events.push(e),
            None => {},
        }
        proof {
            let fired = fired_soft(old_chunk, new_chunk, related_docs@);
            assert(events@.len() == fired.len());
        }
        events
    }
}

} // verus!
