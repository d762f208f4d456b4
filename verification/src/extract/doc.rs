//! Documentation chunks: heading-delimited sections of Markdown-like files.

use crate::extract::hash::{content_hash, sha256_hex_of};
use crate::text;
use vstd::prelude::*;
use vstd::string::StringExecFns;

verus! {

/// Heading level in documentation, `H1` the shallowest.
#[derive(Debug, Clone, Copy, PartialEq, Eq, Structural)]
pub enum HeadingLevel {
    H1,
    H2,
    H3,
    H4,
    H5,
    H6,
}

/// The numeric depth of a heading level, 1 through 6.
pub open spec fn level_number(l: HeadingLevel) -> int {
    match l {
        HeadingLevel::H1 => 1,
        HeadingLevel::H2 => 2,
        HeadingLevel::H3 => 3,
        HeadingLevel::H4 => 4,
        HeadingLevel::H5 => 5,
        HeadingLevel::H6 => 6,
    }
}

/// The heading level of a numeric depth; depths outside 1 through 6 are
/// clamped to the nearest level.
pub open spec fn level_of_number(n: int) -> HeadingLevel {
    if n <= 1 {
        HeadingLevel::H1
    } else if n == 2 {
        HeadingLevel::H2
    } else if n == 3 {
        HeadingLevel::H3
    } else if n == 4 {
        HeadingLevel::H4
    } else if n == 5 {
        HeadingLevel::H5
    } else {
        HeadingLevel::H6
    }
}

impl HeadingLevel {
    /// The numeric depth, 1 through 6.
    pub fn number(&self) -> (r: u8)
        ensures
            r as int == level_number(*self),
    {
        match self {
            HeadingLevel::H1 => 1,
            HeadingLevel::H2 => 2,
            HeadingLevel::H3 => 3,
            HeadingLevel::H4 => 4,
            HeadingLevel::H5 => 5,
            HeadingLevel::H6 => 6,
        }
    }

    /// The level of a numeric depth, clamped to 1 through 6.
    pub fn from_number(n: u8) -> (r: HeadingLevel)
        ensures
            r == level_of_number(n as int),
    {
        if n <= 1 {
            HeadingLevel::H1
        } else if n == 2 {
            HeadingLevel::H2
        } else if n == 3 {
            HeadingLevel::H3
        } else if n == 4 {
            HeadingLevel::H4
        } else if n == 5 {
            HeadingLevel::H5
        } else {
            HeadingLevel::H6
        }
    }
}

/// The identifier of a doc chunk: file path and heading path.
pub open spec fn doc_chunk_id_of(file_path: Seq<char>, heading_path: Seq<Seq<char>>) -> Seq<char> {
    file_path + "#"@ + text::join_with_sep(heading_path, " > "@)
}

/// A semantic unit extracted from documentation.
#[derive(Debug)]
pub struct DocChunk {
    /// Unique identifier (file path + heading path).
    pub id: String,
    /// File path relative to the repository root.
    pub file_path: String,
    /// Ancestor headings, nearest hierarchy first.
    pub heading_path: Vec<String>,
    /// The heading text itself.
    pub heading: String,
    /// Heading level.
    pub level: HeadingLevel,
    /// Raw content, including the heading line.
    pub content: String,
    /// Content hash for change detection.
    pub hash: String,
    /// Line number where the section starts (1-indexed).
    pub start_line: usize,
    /// Line number where the section ends (1-indexed, inclusive).
    pub end_line: usize,
    /// Embedding vector in fixed-point millionths, populated later.
    pub embedding: Option<Vec<i64>>,
}

/// The fields a freshly constructed doc chunk carries.
pub open spec fn doc_chunk_fresh(
    c: DocChunk,
    file_path: Seq<char>,
    heading_path: Seq<Seq<char>>,
    heading: Seq<char>,
    level: HeadingLevel,
    content: Seq<char>,
    start_line: usize,
    end_line: usize,
) -> bool {
    &&& c.id@ == doc_chunk_id_of(file_path, heading_path)
    &&& c.file_path@ == file_path
    &&& c.heading_path.deep_view() == heading_path
    &&& c.heading@ == heading
    &&& c.level == level
    &&& c.content@ == content
    &&& c.hash@ == sha256_hex_of(content)
    &&& c.start_line == start_line
    &&& c.end_line == end_line
    &&& c.embedding is None
}

impl DocChunk {
    /// Create a new doc chunk. The identifier derives deterministically from
    /// the file path and the heading path; the hash from the content.
    pub fn new(
        file_path: &str,
        heading_path: Vec<String>,
        heading: &str,
        level: HeadingLevel,
        content: &str,
        start_line: usize,
        end_line: usize,
    ) -> (r: DocChunk)
        ensures
            doc_chunk_fresh(
                r,
                file_path@,
                heading_path.deep_view(),
                heading@,
                level,
                content@,
                start_line,
                end_line,
            ),
    {
        let path_str = text::join_strings(&heading_path, " > ");
        let mut id = file_path.to_owned();
        id.append("#");
        id.append(path_str.as_str());
        let hash = content_hash(content);
        DocChunk {
            id,
            file_path: file_path.to_owned(),
            heading_path,
            heading: heading.to_owned(),
            level,
            content: content.to_owned(),
            hash,
            start_line,
            end_line,
            embedding: None,
        }
    }

    /// The text that stands for this chunk when an embedding is requested.
    pub fn embedding_text(&self) -> (r: String)
        ensures
            r@ == "Documentation section: "@ + text::join_with_sep(
                self.heading_path.deep_view(),
                " > "@,
            ) + "\nFile: "@ + self.file_path@ + "\n\n"@ + self.content@,
    {
        let mut r = String::from_str("Documentation section: ");
        r.append(self.full_path().as_str());
        r.append("\nFile: ");
        r.append(self.file_path.as_str());
        r.append("\n\n");
        r.append(self.content.as_str());
        r
    }

    /// The full heading path as one text, ancestors joined by arrows.
    pub fn full_path(&self) -> (r: String)
        ensures
            r@ == text::join_with_sep(self.heading_path.deep_view(), " > "@),
    {
        text::join_strings(&self.heading_path, " > ")
    }
}

/// Whether two doc chunks carry the same values in every field.
pub open spec fn same_doc_chunk(a: DocChunk, b: DocChunk) -> bool {
    &&& a.id@ == b.id@
    &&& a.file_path@ == b.file_path@
    &&& a.heading_path.deep_view() == b.heading_path.deep_view()
    &&& a.heading@ == b.heading@
    &&& a.level == b.level
    &&& a.content@ == b.content@
    &&& a.hash@ == b.hash@
    &&& a.start_line == b.start_line
    &&& a.end_line == b.end_line
    &&& match (a.embedding, b.embedding) {
        (Some(x), Some(y)) => x@ == y@,
        (None, None) => true,
        _ => false,
    }
}

/// Copy a list of texts.
pub fn clone_strings(v: &Vec<String>) -> (r: Vec<String>)
    ensures
        r.deep_view() == v.deep_view(),
{
    let n = v.len();
    let mut out: Vec<String> = Vec::new();
    let mut i: usize = 0;
    proof {
        assert(out.deep_view() =~= v.deep_view().subrange(0, 0));
    }
    while i < n
        invariant
            0 <= i <= n,
            n == v@.len(),
            out.deep_view() == v.deep_view().subrange(0, i as int),
        decreases n - i,
    {
        proof {
            assert(out.deep_view().len() == i as int);
        }
        out.push(v[i].clone());
        proof {
            assert(v.deep_view()[i as int] == v@[i as int]@);
            assert(out.deep_view() =~= v.deep_view().subrange(0, i as int + 1));
        }
        i = i + 1;
    }
    proof {
        assert(v.deep_view().subrange(0, n as int) =~= v.deep_view());
    }
    out
}

impl Clone for DocChunk {
    /// A copy that carries the same values in every field.
    fn clone(&self) -> (r: DocChunk)
        ensures
            same_doc_chunk(r, *self),
    {
        DocChunk {
            id: self.id.clone(),
            file_path: self.file_path.clone(),
            heading_path: clone_strings(&self.heading_path),
            heading: self.heading.clone(),
            level: self.level,
            content: self.content.clone(),
            hash: self.hash.clone(),
            start_line: self.start_line,
            end_line: self.end_line,
            embedding: crate::extract::code::clone_opt_scores(&self.embedding),
        }
    }
}

/// One section recognised during a scan, before its content is sliced.
pub struct Section {
    /// Ancestor headings, nearest hierarchy first.
    pub heading_path: Vec<String>,
    /// The heading text itself.
    pub heading: String,
    /// Numeric heading depth, 1 through 6.
    pub level: u8,
    /// Line of the heading (1-indexed).
    pub start_line: usize,
    /// Last line of the section (1-indexed, inclusive).
    pub end_line: usize,
}

/// The mathematical model of a scanned section.
pub struct SectionModel {
    /// Ancestor headings, nearest hierarchy first.
    pub heading_path: Seq<Seq<char>>,
    /// The heading text itself.
    pub heading: Seq<char>,
    /// Numeric heading depth, 1 through 6.
    pub level: int,
    /// Line of the heading (1-indexed).
    pub start_line: int,
    /// Last line of the section (1-indexed, inclusive).
    pub end_line: int,
}

impl Section {
    /// The mathematical model of this section.
    pub open spec fn model(&self) -> SectionModel {
        SectionModel {
            heading_path: self.heading_path.deep_view(),
            heading: self.heading@,
            level: self.level as int,
            start_line: self.start_line as int,
            end_line: self.end_line as int,
        }
    }
}

/// The state of the scan after some prefix of the lines.
pub struct DocScanState {
    /// Open headings, outermost first: level and heading text.
    pub stack: Seq<(int, Seq<char>)>,
    /// The currently open section, its end line not yet known.
    pub open: Option<SectionModel>,
    /// The sections already closed, in order of their headings.
    pub done: Seq<SectionModel>,
    /// Whether the scan stands inside a fenced code block.
    pub fence: bool,
}

/// Number of leading number signs of a line.
pub open spec fn hash_prefix_len(t: Seq<char>) -> int
    decreases t.len(),
{
    if t.len() == 0 || t[0] != '#' {
        0
    } else {
        1 + hash_prefix_len(t.drop_first())
    }
}

/// The heading depth a trimmed line declares: the count of its leading
/// number signs when they number 1 through 6 and a space or the line end
/// follows them; 0 when the line is no heading.
pub open spec fn heading_level_of(t: Seq<char>) -> int {
    let k = hash_prefix_len(t);
    if 1 <= k <= 6 && (t.len() == k || t[k] == ' ') {
        k
    } else {
        0
    }
}

/// The heading text of a trimmed heading line: what follows the number
/// signs, trimmed.
pub open spec fn heading_text_of(t: Seq<char>) -> Seq<char> {
    if 0 <= hash_prefix_len(t) <= t.len() {
        crate::text::trim_of(t.subrange(hash_prefix_len(t), t.len() as int))
    } else {
        Seq::empty()
    }
}

/// Pop every stack entry at least as deep as the new heading: siblings and
/// deeper descendants close, shallower ancestors stay.
pub open spec fn pop_while_ge(stack: Seq<(int, Seq<char>)>, level: int) -> Seq<(int, Seq<char>)>
    decreases stack.len(),
{
    if stack.len() == 0 {
        stack
    } else if stack.last().0 >= level {
        pop_while_ge(stack.drop_last(), level)
    } else {
        stack
    }
}

/// The heading texts of an open-heading stack, outermost first.
pub open spec fn heading_path_of(stack: Seq<(int, Seq<char>)>) -> Seq<Seq<char>> {
    stack.map_values(|p: (int, Seq<char>)| p.1)
}

/// A section closed at `end`, never before its own heading line.
pub open spec fn close_section(o: SectionModel, end: int) -> SectionModel {
    SectionModel {
        end_line: if end >= o.start_line {
            end
        } else {
            o.start_line
        },
        ..o
    }
}

/// One step of the scan, on the line numbered `line_no` (1-indexed).
pub open spec fn scan_step(st: DocScanState, line: Seq<char>, line_no: int) -> DocScanState {
    let t = crate::text::trim_of(line);
    if crate::text::starts_with_seq(t, "```"@) {
        DocScanState { fence: !st.fence, ..st }
    } else if !st.fence && heading_level_of(t) >= 1 {
        let k = heading_level_of(t);
        let txt = heading_text_of(t);
        let done = st.done + (match st.open {
            Some(o) => seq![close_section(o, line_no - 1)],
            None => Seq::empty(),
        });
        let stack = pop_while_ge(st.stack, k).push((k, txt));
        DocScanState {
            stack,
            open: Some(
                SectionModel {
                    heading_path: heading_path_of(stack),
                    heading: txt,
                    level: k,
                    start_line: line_no,
                    end_line: 0,
                },
            ),
            done,
            fence: st.fence,
        }
    } else {
        st
    }
}

/// The initial state of a scan.
pub open spec fn scan_init() -> DocScanState {
    DocScanState { stack: Seq::empty(), open: None, done: Seq::empty(), fence: false }
}

/// The state after the first `i` lines.
pub open spec fn scan_upto(lines: Seq<Seq<char>>, i: int) -> DocScanState
    decreases i,
{
    if i <= 0 {
        scan_init()
    } else {
        scan_step(scan_upto(lines, i - 1), lines[i - 1], i)
    }
}

/// Every section of a document's lines: the closed sections in heading
/// order, the final open section closed at the last line.
pub open spec fn sections_of(lines: Seq<Seq<char>>) -> Seq<SectionModel> {
    let st = scan_upto(lines, lines.len() as int);
    st.done + (match st.open {
        Some(o) => seq![close_section(o, lines.len() as int)],
        None => Seq::empty(),
    })
}

/// The content of a section: its lines, heading line included, joined by
/// newlines.
pub open spec fn section_content_of(lines: Seq<Seq<char>>, s: SectionModel) -> Seq<char> {
    if 1 <= s.start_line && s.start_line <= s.end_line && s.end_line <= lines.len() {
        crate::text::join_with_sep(lines.subrange(s.start_line - 1, s.end_line), "\n"@)
    } else {
        Seq::empty()
    }
}

/// Every scanned section lies within the lines it was scanned from.
pub open spec fn section_in_bounds(s: SectionModel, n_lines: int) -> bool {
    1 <= s.start_line <= s.end_line <= n_lines
}

pub proof fn lemma_hash_prefix_bounds(t: Seq<char>)
    ensures
        0 <= hash_prefix_len(t) <= t.len(),
        forall|j: int| 0 <= j < hash_prefix_len(t) ==> t[j] == '#',
        hash_prefix_len(t) < t.len() ==> t[hash_prefix_len(t)] != '#',
    decreases t.len(),
{
    if t.len() == 0 || t[0] != '#' {
    } else {
        lemma_hash_prefix_bounds(t.drop_first());
        assert forall|j: int| 0 <= j < hash_prefix_len(t) implies t[j] == '#' by {
            if j > 0 {
                assert(t.drop_first()[j - 1] == t[j]);
            }
        }
        if hash_prefix_len(t) < t.len() {
            assert(t.drop_first()[hash_prefix_len(t) - 1] == t[hash_prefix_len(t)]);
        }
    }
}

proof fn lemma_hash_prefix_unique(t: Seq<char>, i: int)
    requires
        0 <= i <= t.len(),
        forall|j: int| 0 <= j < i ==> t[j] == '#',
        i < t.len() ==> t[i] != '#',
    ensures
        hash_prefix_len(t) == i,
    decreases t.len(),
{
    if t.len() == 0 {
    } else if i == 0 {
    } else {
        assert(t[0] == '#');
        assert forall|j: int| 0 <= j < i - 1 implies t.drop_first()[j] == '#' by {
            assert(t.drop_first()[j] == t[j + 1]);
        }
        if i - 1 < t.drop_first().len() {
            assert(t.drop_first()[i - 1] == t[i]);
        }
        lemma_hash_prefix_unique(t.drop_first(), i - 1);
    }
}

/// The heading depth a trimmed line declares, decided by character;
/// 0 when the line is no heading.
pub fn heading_level_exec(t: &str) -> (r: usize)
    ensures
        r == heading_level_of(t@),
        r >= 1 ==> r == hash_prefix_len(t@) && r <= t@.len(),
{
    let n = t.unicode_len();
    let mut c: usize = 0;
    while c < n && t.get_char(c) == '#'
        invariant
            0 <= c <= n,
            n == t@.len(),
            forall|j: int| 0 <= j < c ==> t@[j] == '#',
        decreases n - c,
    {
        c = c + 1;
    }
    proof {
        lemma_hash_prefix_unique(t@, c as int);
    }
    if 1 <= c && c <= 6 && (c == n || t.get_char(c) == ' ') {
        c
    } else {
        0
    }
}

/// The view of an open-heading stack.
pub open spec fn stack_view(stack: Seq<(u8, String)>) -> Seq<(int, Seq<char>)> {
    stack.map_values(|p: (u8, String)| (p.0 as int, p.1@))
}

/// The models of a list of scanned sections.
pub open spec fn secs_view(done: Seq<Section>) -> Seq<SectionModel> {
    done.map_values(|s: Section| s.model())
}

/// Extracts doc chunks from Markdown files.
pub struct DocExtractor {
    /// Minimum section length to extract, in characters.
    pub min_section_length: usize,
}

impl DocExtractor {
    /// Create a new doc extractor with the default minimum section length.
    pub fn new() -> (r: DocExtractor)
        ensures
            r.min_section_length == 10,
    {
        DocExtractor { min_section_length: 10 }
    }

    /// Set the minimum section length.
    pub fn with_min_length(self, length: usize) -> (r: DocExtractor)
        ensures
            r.min_section_length == length,
    {
        DocExtractor { min_section_length: length }
    }

    /// Scan the lines of a document for its heading-delimited sections.
    ///
    /// A heading is a trimmed line of one to six number signs followed by a
    /// space or the line end; lines inside fenced code blocks do not count.
    /// A new heading at some depth closes every open heading at that depth
    /// or deeper before it opens, so heading paths reflect strict nesting.
    pub fn parse_sections(&self, content: &str) -> (r: Vec<Section>)
        ensures
            secs_view(r@) == sections_of(crate::text::lines_of(content@)),
            forall|i: int|
                0 <= i < r@.len() ==> section_in_bounds(
                    #[trigger] r@[i].model(),
                    crate::text::lines_of(content@).len() as int,
                ),
    {
        let lines = crate::text::split_lines(content);
        let n = lines.len();
        let ghost lseq = lines.deep_view();
        let mut stack: Vec<(u8, String)> = Vec::new();
        let mut open: Option<Section> = None;
        let mut done: Vec<Section> = Vec::new();
        let mut fence: bool = false;
        let mut li: usize = 0;
        proof {
            assert(stack_view(stack@) =~= scan_init().stack);
            assert(secs_view(done@) =~= scan_init().done);
        }
        while li < n
            invariant
                0 <= li <= n,
                n == lines.len(),
                lseq == lines.deep_view(),
                stack_view(stack@) == scan_upto(lseq, li as int).stack,
                match open {
                    Some(s) => scan_upto(lseq, li as int).open == Some(s.model()) && 1
                        <= s.start_line <= li && s.end_line == 0,
                    None => scan_upto(lseq, li as int).open is None,
                },
                secs_view(done@) == scan_upto(lseq, li as int).done,
                fence == scan_upto(lseq, li as int).fence,
                forall|i: int|
                    0 <= i < done@.len() ==> section_in_bounds(
                        #[trigger] done@[i].model(),
                        li as int,
                    ),
            decreases n - li,
        {
            let ghost st = scan_upto(lseq, li as int);
            let ghost line = lseq[li as int];
            proof {
                assert(lines.deep_view()[li as int] == lines@[li as int]@);
            }
            let trimmed = crate::text::trim_str(lines[li].as_str());
            let ghost st2 = scan_upto(lseq, li as int + 1);
            proof {
                assert(st2 == scan_step(st, line, li as int + 1));
            }
            if crate::text::starts_with_str(trimmed.as_str(), "```") {
                fence = !fence;
            } else {
                let k = heading_level_exec(trimmed.as_str());
                if !fence && k >= 1 {
                    // Close the current section, if any, at the line above.
                    let prev = open;
                    match prev {
                        Some(mut o) => {
                            if li >= o.start_line {
                                o.end_line = li;
                            } else {
                                o.end_line = o.start_line;
                            }
                            proof {
                                assert(o.model() == close_section(
                                    st.open.unwrap(),
                                    li as int,
                                ));
                                assert(secs_view(done@.push(o)) =~= secs_view(done@).push(
                                    o.model(),
                                ));
                            }
                            done.push(o);
                        },
                        None => {
                            proof {
                                assert(st.done + Seq::<SectionModel>::empty() =~= st.done);
                            }
                        },
                    }
                    // Pop entries at this depth or deeper, then push the
                    // new heading.
                    let ghost stack0 = stack_view(stack@);
                    while stack.len() > 0 && stack[stack.len() - 1].0 >= k as u8
                        invariant
                            1 <= k <= 6,
                            pop_while_ge(stack0, k as int) == pop_while_ge(
                                stack_view(stack@),
                                k as int,
                            ),
                        decreases stack.len(),
                    {
                        let ghost bv = stack@;
                        let ghost before = stack_view(bv);
                        proof {
                            assert(before.len() == bv.len());
                            assert(before[bv.len() - 1] == (
                                bv[bv.len() - 1].0 as int,
                                bv[bv.len() - 1].1@,
                            ));
                            assert(before.last().0 >= k as int);
                            assert(stack_view(bv.drop_last()) =~= before.drop_last());
                        }
                        stack.pop();
                    }
                    proof {
                        let cur = stack_view(stack@);
                        if stack@.len() > 0 {
                            assert(cur[stack@.len() - 1] == (
                                stack@[stack@.len() - 1].0 as int,
                                stack@[stack@.len() - 1].1@,
                            ));
                            assert(cur.last().0 < k as int);
                        }
                        assert(pop_while_ge(stack0, k as int) == cur);
                    }
                    let hl = trimmed.unicode_len();
                    let piece = trimmed.as_str().substring_char(k, hl);
                    let txt = crate::text::trim_str(piece);
                    proof {
                        lemma_hash_prefix_bounds(trimmed@);
                        assert(piece@ == trimmed@.subrange(k as int, trimmed@.len() as int));
                        assert(txt@ == heading_text_of(crate::text::trim_of(line)));
                        assert(stack_view(stack@.push((k as u8, txt))) =~= stack_view(
                            stack@,
                        ).push((k as int, txt@)));
                    }
                    stack.push((k as u8, txt.clone()));
                    // The heading path is the whole remaining stack.
                    let mut hp: Vec<String> = Vec::new();
                    let mut si: usize = 0;
                    while si < stack.len()
                        invariant
                            0 <= si <= stack.len(),
                            hp.deep_view() =~= heading_path_of(stack_view(stack@)).subrange(
                                0,
                                si as int,
                            ),
                        decreases stack.len() - si,
                    {
                        proof {
                            assert(heading_path_of(stack_view(stack@)).len() == stack@.len());
                            assert(hp.deep_view().len() == si as int);
                        }
                        hp.push(stack[si].1.clone());
                        proof {
                            let tgt = heading_path_of(stack_view(stack@));
                            let pd = hp.deep_view();
                            assert(stack_view(stack@)[si as int] == (
                                stack@[si as int].0 as int,
                                stack@[si as int].1@,
                            ));
                            assert(tgt[si as int] == stack@[si as int].1@);
                            assert(pd.len() == si + 1);
                            assert forall|j: int| 0 <= j < pd.len() implies pd[j] == tgt.subrange(
                                0,
                                si as int + 1,
                            )[j] by {
                                if j < si as int {
                                    assert(pd[j] == hp@[j]@);
                                } else {
                                    assert(pd[j] == hp@[si as int]@);
                                }
                            }
                            assert(pd =~= tgt.subrange(0, si as int + 1));
                        }
                        si = si + 1;
                    }
                    proof {
                        assert(hp.deep_view() =~= heading_path_of(stack_view(stack@)));
                    }
                    let sec = Section {
                        heading_path: hp,
                        heading: txt,
                        level: k as u8,
                        start_line: li + 1,
                        end_line: 0,
                    };
                    proof {
                        assert(sec.model() == st2.open.unwrap());
                    }
                    open = Some(sec);
                }
            }
            li = li + 1;
        }
        // Close the final open section at the last line of the file.
        let prev = open;
        match prev {
            Some(mut o) => {
                if n >= o.start_line {
                    o.end_line = n;
                } else {
                    o.end_line = o.start_line;
                }
                proof {
                    let st = scan_upto(lseq, n as int);
                    assert(o.model() == close_section(st.open.unwrap(), lseq.len() as int));
                    assert(secs_view(done@.push(o)) =~= secs_view(done@).push(o.model()));
                    assert(secs_view(done@).push(o.model()) =~= sections_of(lseq));
                }
                done.push(o);
            },
            None => {
                proof {
                    let st = scan_upto(lseq, n as int);
                    assert(st.done + Seq::<SectionModel>::empty() =~= st.done);
                }
            },
        }
        done
    }

    /// The content of a section: the given lines from `start` through `end`
    /// (1-indexed, inclusive), joined by newlines; empty when the range does
    /// not lie within the lines.
    pub fn extract_section_content(
        &self,
        lines: &Vec<String>,
        start: usize,
        end: usize,
    ) -> (r: String)
        ensures
            1 <= start <= end <= lines@.len() ==> r@ == crate::text::join_with_sep(
                lines.deep_view().subrange(start - 1, end as int),
                "\n"@,
            ),
            !(1 <= start && start <= end && end <= lines@.len()) ==> r@ == Seq::<char>::empty(),
    {
        if !(1 <= start && start <= end && end <= lines.len()) {
            return String::new();
        }
        let mut piece: Vec<String> = Vec::new();
        let mut i: usize = start - 1;
        while i < end
            invariant
                1 <= start,
                start - 1 <= i <= end <= lines@.len(),
                piece.deep_view() =~= lines.deep_view().subrange(start - 1, i as int),
            decreases end - i,
        {
            proof {
                assert(piece.deep_view().len() == i - (start - 1));
            }
            piece.push(lines[i].clone());
            proof {
                let ld = lines.deep_view();
                let pd = piece.deep_view();
                assert(ld[i as int] == lines@[i as int]@);
                assert(pd.len() == i - (start - 1) + 1);
                assert forall|j: int| 0 <= j < pd.len() implies pd[j] == ld.subrange(
                    start - 1,
                    i as int + 1,
                )[j] by {
                    if j < pd.len() - 1 {
                        assert(pd[j] == piece@[j]@);
                    } else {
                        assert(pd[j] == piece@[pd.len() - 1]@);
                    }
                }
                assert(pd =~= ld.subrange(start - 1, i as int + 1));
            }
            i = i + 1;
        }
        crate::text::join_strings(&piece, "\n")
    }
}

/// The sections whose content reaches the minimum length.
pub open spec fn kept_of(secs: Seq<SectionModel>, lines: Seq<Seq<char>>, min: int) -> Seq<
    SectionModel,
> {
    secs.filter(|s: SectionModel| section_content_of(lines, s).len() >= min)
}

/// Whether a doc chunk renders the given section of the given file.
pub open spec fn doc_chunk_matches_section(
    c: DocChunk,
    file: Seq<char>,
    lines: Seq<Seq<char>>,
    s: SectionModel,
) -> bool {
    &&& c.id@ == doc_chunk_id_of(file, s.heading_path)
    &&& c.file_path@ == file
    &&& c.heading_path.deep_view() == s.heading_path
    &&& c.heading@ == s.heading
    &&& c.level == level_of_number(s.level)
    &&& c.content@ == section_content_of(lines, s)
    &&& c.hash@ == sha256_hex_of(c.content@)
    &&& c.start_line as int == s.start_line
    &&& c.end_line as int == s.end_line
    &&& c.embedding is None
}

/// Whether a doc chunk stands for a whole file without sections: headed by
/// the file path itself, at the shallowest level, covering every line.
pub open spec fn doc_chunk_matches_whole_file(
    c: DocChunk,
    file: Seq<char>,
    content: Seq<char>,
    n_lines: int,
) -> bool {
    &&& c.id@ == doc_chunk_id_of(file, seq![file])
    &&& c.file_path@ == file
    &&& c.heading_path.deep_view() == seq![file]
    &&& c.heading@ == file
    &&& c.level == HeadingLevel::H1
    &&& c.content@ == content
    &&& c.hash@ == sha256_hex_of(content)
    &&& c.start_line == 1
    &&& c.end_line as int == n_lines
    &&& c.embedding is None
}

/// What extraction returns for a document: its kept sections as chunks; when
/// there is none and the file is not blank, one chunk for the whole file.
pub open spec fn doc_extract_ok(
    chunks: Seq<DocChunk>,
    file: Seq<char>,
    content: Seq<char>,
    min: int,
) -> bool {
    let lines = crate::text::lines_of(content);
    let kept = kept_of(sections_of(lines), lines, min);
    if kept.len() > 0 {
        &&& chunks.len() == kept.len()
        &&& forall|i: int|
            0 <= i < kept.len() ==> doc_chunk_matches_section(
                #[trigger] chunks[i],
                file,
                lines,
                kept[i],
            )
    } else if crate::text::trim_of(content).len() > 0 {
        chunks.len() == 1 && doc_chunk_matches_whole_file(
            chunks[0],
            file,
            content,
            lines.len() as int,
        )
    } else {
        chunks.len() == 0
    }
}

impl DocExtractor {
    /// Extract chunks from a Markdown file: one per heading-delimited
    /// section of at least the minimum length; for a sectionless non-blank
    /// file, one chunk covering the whole file. Malformed markup degrades
    /// gracefully, so extraction never fails.
    pub fn extract_file(&self, path: &str, content: &str) -> (r: Result<
        Vec<DocChunk>,
        crate::extract::ExtractError,
    >)
        ensures
            r is Ok,
            r matches Ok(v) ==> doc_extract_ok(
                v@,
                path@,
                content@,
                self.min_section_length as int,
            ),
    {
        let lines = crate::text::split_lines(content);
        let sections = self.parse_sections(content);
        let ghost lseq = lines.deep_view();
        let ghost smodels = secs_view(sections@);
        let ghost min = self.min_section_length as int;
        let mut chunks: Vec<DocChunk> = Vec::new();
        let mut si: usize = 0;
        proof {
            assert(smodels.subrange(0, 0) =~= Seq::<SectionModel>::empty());
            assert(kept_of(smodels.subrange(0, 0), lseq, min) =~= Seq::<SectionModel>::empty());
        }
        while si < sections.len()
            invariant
                0 <= si <= sections.len(),
                lseq == lines.deep_view(),
                smodels == secs_view(sections@),
                min == self.min_section_length as int,
                forall|i: int|
                    0 <= i < sections@.len() ==> section_in_bounds(
                        #[trigger] sections@[i].model(),
                        lseq.len() as int,
                    ),
                ({
                    let kept = kept_of(smodels.subrange(0, si as int), lseq, min);
                    &&& chunks@.len() == kept.len()
                    &&& forall|i: int|
                        0 <= i < kept.len() ==> doc_chunk_matches_section(
                            #[trigger] chunks@[i],
                            path@,
                            lseq,
                            kept[i],
                        )
                }),
            decreases sections.len() - si,
        {
            let ghost m = sections@[si as int].model();
            proof {
                assert(smodels[si as int] == m);
                assert(section_in_bounds(m, lseq.len() as int));
            }
            let sec = &sections[si];
            let content_i = self.extract_section_content(&lines, sec.start_line, sec.end_line);
            proof {
                assert(content_i@ == section_content_of(lseq, m));
            }
            let ghost kept_pre = kept_of(smodels.subrange(0, si as int), lseq, min);
            proof {
                let sub1 = smodels.subrange(0, si as int + 1);
                assert(sub1.drop_last() =~= smodels.subrange(0, si as int));
                assert(sub1.last() == m);
                reveal(Seq::filter);
            }
            if content_i.unicode_len() >= self.min_section_length {
                let chunk = DocChunk::new(
                    path,
                    sec.heading_path.clone(),
                    sec.heading.as_str(),
                    HeadingLevel::from_number(sec.level),
                    content_i.as_str(),
                    sec.start_line,
                    sec.end_line,
                );
                proof {
                    assert(sec.heading_path.deep_view() == m.heading_path);
                    assert(doc_chunk_matches_section(chunk, path@, lseq, m));
                    assert(kept_of(smodels.subrange(0, si as int + 1), lseq, min) =~= kept_pre.push(
                        m,
                    ));
                }
                chunks.push(chunk);
            } else {
                proof {
                    assert(kept_of(smodels.subrange(0, si as int + 1), lseq, min) =~= kept_pre);
                }
            }
            si = si + 1;
        }
        proof {
            assert(smodels.subrange(0, sections@.len() as int) =~= smodels);
        }
        if chunks.len() == 0 {
            let trimmed = crate::text::trim_str(content);
            if trimmed.unicode_len() > 0 {
                proof {
                    // A non-blank text has at least one line.
                    crate::text::lemma_first_non_ws_bounds(content@);
                    assert(content@.len() > 0);
                    assert(lseq.len() >= 1);
                }
                let mut hp: Vec<String> = Vec::new();
                hp.push(path.to_owned());
                proof {
                    assert(hp.deep_view() =~= seq![path@]);
                }
                let chunk = DocChunk::new(
                    path,
                    hp,
                    path,
                    HeadingLevel::H1,
                    content,
                    1,
                    lines.len(),
                );
                chunks.push(chunk);
            }
        }
        Ok(chunks)
    }
}

impl crate::extract::Chunk for DocChunk {
    open spec fn spec_id(&self) -> Seq<char> {
        self.id@
    }

    open spec fn spec_content(&self) -> Seq<char> {
        self.content@
    }

    open spec fn spec_hash(&self) -> Seq<char> {
        self.hash@
    }

    open spec fn spec_file_path(&self) -> Seq<char> {
        self.file_path@
    }

    fn id(&self) -> &str {
        self.id.as_str()
    }

    fn content(&self) -> &str {
        self.content.as_str()
    }

    fn hash(&self) -> &str {
        self.hash.as_str()
    }

    fn file_path(&self) -> &str {
        self.file_path.as_str()
    }
}

} // verus!

verus! {

/// A code block found in documentation.
#[derive(Debug, Clone)]
pub struct CodeBlock {
    /// Language identifier, if the fence names one.
    pub language: Option<String>,
    /// Code content.
    pub content: String,
}

/// The mathematical model of a code block.
pub struct CodeBlockModel {
    /// Language identifier, if the fence names one.
    pub language: Option<Seq<char>>,
    /// Code content.
    pub content: Seq<char>,
}

impl CodeBlock {
    /// The mathematical model of this code block.
    pub open spec fn model(&self) -> CodeBlockModel {
        CodeBlockModel {
            language: match self.language {
                Some(ref l) => Some(l@),
                None => None,
            },
            content: self.content@,
        }
    }
}

/// The state of a code-block scan: the open fence's language and the
/// content gathered so far, when a fence is open.
pub struct BlockScanState {
    /// The open block, if any.
    pub open: Option<(Seq<char>, Seq<char>)>,
    /// The blocks already closed, in order.
    pub done: Seq<CodeBlockModel>,
}

/// A closed code block: a fence language, empty for none, and its content.
pub open spec fn close_block(lang: Seq<char>, acc: Seq<char>) -> CodeBlockModel {
    CodeBlockModel {
        language: if lang.len() == 0 {
            None
        } else {
            Some(lang)
        },
        content: acc,
    }
}

/// One step of the code-block scan.
pub open spec fn block_step(st: BlockScanState, line: Seq<char>) -> BlockScanState {
    let t = crate::text::trim_of(line);
    if crate::text::starts_with_seq(t, "```"@) {
        match st.open {
            None => BlockScanState {
                open: Some(
                    (
                        if 3 <= t.len() {
                            crate::text::trim_of(t.subrange(3, t.len() as int))
                        } else {
                            Seq::empty()
                        },
                        Seq::empty(),
                    ),
                ),
                done: st.done,
            },
            Some((lang, acc)) => BlockScanState {
                open: None,
                done: st.done.push(close_block(lang, acc)),
            },
        }
    } else {
        match st.open {
            None => st,
            Some((lang, acc)) => BlockScanState {
                open: Some((lang, acc + line + "\n"@)),
                done: st.done,
            },
        }
    }
}

/// The state of the code-block scan after the first `i` lines.
pub open spec fn block_scan_upto(lines: Seq<Seq<char>>, i: int) -> BlockScanState
    decreases i,
{
    if i <= 0 {
        BlockScanState { open: None, done: Seq::empty() }
    } else {
        block_step(block_scan_upto(lines, i - 1), lines[i - 1])
    }
}

/// Every fenced code block of a text, an unclosed final fence included.
pub open spec fn code_blocks_of(content: Seq<char>) -> Seq<CodeBlockModel> {
    let lines = crate::text::lines_of(content);
    let st = block_scan_upto(lines, lines.len() as int);
    st.done + (match st.open {
        Some((lang, acc)) => seq![close_block(lang, acc)],
        None => Seq::empty(),
    })
}

/// Extract the fenced code blocks from Markdown content, each with the
/// language its fence names.
pub fn extract_code_blocks(content: &str) -> (r: Vec<CodeBlock>)
    ensures
        r@.map_values(|b: CodeBlock| b.model()) == code_blocks_of(content@),
{
    let lines = crate::text::split_lines(content);
    let n = lines.len();
    let ghost lseq = lines.deep_view();
    let mut open: Option<(String, String)> = None;
    let mut done: Vec<CodeBlock> = Vec::new();
    let mut li: usize = 0;
    proof {
        assert(done@.map_values(|b: CodeBlock| b.model()) =~= Seq::<CodeBlockModel>::empty());
    }
    while li < n
        invariant
            0 <= li <= n,
            n == lines.len(),
            lseq == lines.deep_view(),
            match open {
                Some((ref lang, ref acc)) => block_scan_upto(lseq, li as int).open == Some(
                    (lang@, acc@),
                ),
                None => block_scan_upto(lseq, li as int).open is None,
            },
            done@.map_values(|b: CodeBlock| b.model()) == block_scan_upto(lseq, li as int).done,
        decreases n - li,
    {
        let ghost st = block_scan_upto(lseq, li as int);
        let ghost line = lseq[li as int];
        proof {
            assert(lines.deep_view()[li as int] == lines@[li as int]@);
            assert(block_scan_upto(lseq, li as int + 1) == block_step(st, line));
        }
        let trimmed = crate::text::trim_str(lines[li].as_str());
        if crate::text::starts_with_str(trimmed.as_str(), "```") {
            let prev = open;
            match prev {
                None => {
                    let tl = trimmed.unicode_len();
                    let lang = if tl >= 3 {
                        crate::text::trim_str(trimmed.as_str().substring_char(3, tl))
                    } else {
                        String::new()
                    };
                    open = Some((lang, String::new()));
                },
                Some((lang, acc)) => {
                    let block = if lang.unicode_len() == 0 {
                        CodeBlock { language: None, content: acc }
                    } else {
                        CodeBlock { language: Some(lang), content: acc }
                    };
                    proof {
                        let f = |b: CodeBlock| b.model();
                        assert(done@.push(block).map_values(f) =~= done@.map_values(f).push(
                            block.model(),
                        ));
                    }
                    done.push(block);
                    open = None;
                },
            }
        } else {
            let prev = open;
            match prev {
                None => {
                    open = None;
                },
                Some((lang, mut acc)) => {
                    acc.append(lines[li].as_str());
                    acc.append("\n");
                    open = Some((lang, acc));
                },
            }
        }
        li = li + 1;
    }
    let prev = open;
    match prev {
        Some((lang, acc)) => {
            let block = if lang.unicode_len() == 0 {
                CodeBlock { language: None, content: acc }
            } else {
                CodeBlock { language: Some(lang), content: acc }
            };
            proof {
                let f = |b: CodeBlock| b.model();
                assert(done@.push(block).map_values(f) =~= done@.map_values(f).push(
                    block.model(),
                ));
                assert(done@.map_values(f).push(block.model()) =~= code_blocks_of(content@));
            }
            done.push(block);
        },
        None => {
            proof {
                let st = block_scan_upto(lseq, n as int);
                assert(st.done + Seq::<CodeBlockModel>::empty() =~= st.done);
            }
        },
    }
    done
}

} // verus!

verus! {

/// Extraction is deterministic: two passes over identical input yield the
/// same number of chunks, with identical heading paths, identical headings
/// and identical content.
pub proof fn lemma_doc_extract_idempotent(
    a: Seq<DocChunk>,
    b: Seq<DocChunk>,
    file: Seq<char>,
    content: Seq<char>,
    min: int,
)
    requires
        doc_extract_ok(a, file, content, min),
        doc_extract_ok(b, file, content, min),
    ensures
        a.len() == b.len(),
        forall|i: int|
            0 <= i < a.len() ==> (#[trigger] a[i]).heading_path.deep_view()
                == b[i].heading_path.deep_view() && a[i].heading@ == b[i].heading@
                && a[i].content@ == b[i].content@,
{
    let lines = crate::text::lines_of(content);
    let kept = kept_of(sections_of(lines), lines, min);
    if kept.len() > 0 {
        assert forall|i: int| 0 <= i < a.len() implies (#[trigger] a[i]).heading_path.deep_view()
            == b[i].heading_path.deep_view() && a[i].heading@ == b[i].heading@ && a[i].content@
            == b[i].content@ by {
            assert(doc_chunk_matches_section(a[i], file, lines, kept[i]));
            assert(doc_chunk_matches_section(b[i], file, lines, kept[i]));
        }
    } else if crate::text::trim_of(content).len() > 0 {
        assert(doc_chunk_matches_whole_file(a[0], file, content, lines.len() as int));
        assert(doc_chunk_matches_whole_file(b[0], file, content, lines.len() as int));
    } else {
    }
}

} // verus!
