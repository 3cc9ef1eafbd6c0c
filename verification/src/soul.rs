//! Identity-file parsing: the agent's role, behavior text, and identifier
//! are read out of a small markdown document of `## Section` blocks.

use vstd::prelude::*;
use vstd::string::StringExecFns;
use crate::text::{spec_trim, trim_str, str_eq, str_starts_with, str_concat};

verus! {

/// Parsed contents of an agent's identity file.
#[derive(Debug, Clone)]
pub struct Soul {
    /// The agent's role, normalized to lower-case kebab form.
    pub role: String,
    /// The agent's identifier: folder name joined with the role.
    pub agent_id: String,
    /// The full `## Behavior` section content, used as the system prompt.
    pub behavior: String,
    /// The raw markdown body.
    pub body: String,
}

/// What lower-casing a string yields; the exact value is fixed by the
/// Unicode case-folding tables.
pub uninterp spec fn lower_of(s: Seq<char>) -> Seq<char>;

/// Relies on `str::to_lowercase`: the result depends on the characters alone.
#[verifier::external_body]
fn lowercase(s: &str) -> (r: String)
    ensures
        r@ == lower_of(s@),
{
    s.to_lowercase()
}

/// A space becomes a dash; any other character stays.
pub open spec fn dash_char(c: char) -> char {
    if c == ' ' {
        '-'
    } else {
        c
    }
}

/// `s` with every space replaced by a dash.
pub open spec fn spec_dashify(s: Seq<char>) -> Seq<char>
    decreases s.len(),
{
    if s.len() == 0 {
        Seq::empty()
    } else {
        spec_dashify(s.drop_last()).push(dash_char(s.last()))
    }
}

/// Replace every space in `s` by a dash.
pub fn dashify(s: &str) -> (r: String)
    ensures
        r@ == spec_dashify(s@),
{
    let n = s.unicode_len();
    let mut r = String::new();
    let mut i: usize = 0;
    while i < n
        invariant
            n == s@.len(),
            0 <= i <= n,
            r@ == spec_dashify(s@.take(i as int)),
        decreases n - i,
    {
        let c = s.get_char(i);
        if c == ' ' {
            r.append("-");
            proof {
                reveal_strlit("-");
            }
        } else {
            let piece = s.substring_char(i, i + 1);
            r.append(piece);
        }
        proof {
            assert(s@.take(i + 1).drop_last() =~= s@.take(i as int));
            assert(s@.take(i + 1).last() == s@[i as int]);
            assert(r@ =~= spec_dashify(s@.take(i + 1)));
        }
        i += 1;
    }
    proof {
        assert(s@.take(n as int) =~= s@);
    }
    r
}

/// The views of a sequence of strings.
pub open spec fn views_of(s: Seq<String>) -> Seq<Seq<char>> {
    Seq::new(s.len(), |i: int| s[i]@)
}

/// Index of the first line break in `s`, or `s.len()` when there is none.
pub open spec fn line_end_at(s: Seq<char>) -> int
    decreases s.len(),
{
    if s.len() == 0 {
        0
    } else if s[0] == '\n' {
        0
    } else {
        1 + line_end_at(s.drop_first())
    }
}

proof fn lemma_line_end_at_bounds(s: Seq<char>)
    ensures
        0 <= line_end_at(s) <= s.len(),
        line_end_at(s) < s.len() ==> s[line_end_at(s)] == '\n',
        forall|j: int| 0 <= j < line_end_at(s) ==> s[j] != '\n',
    decreases s.len(),
{
    if s.len() == 0 {
    } else if s[0] == '\n' {
    } else {
        lemma_line_end_at_bounds(s.drop_first());
        assert(forall|j: int| 0 < j < s.len() ==> s[j] == s.drop_first()[j - 1]);
    }
}

proof fn lemma_line_end_at_from_index(s: Seq<char>, j: int)
    requires
        0 <= j <= s.len(),
        j < s.len() ==> s[j] == '\n',
        forall|k: int| 0 <= k < j ==> s[k] != '\n',
    ensures
        line_end_at(s) == j,
{
    lemma_line_end_at_bounds(s);
    if line_end_at(s) < j {
        assert(s[line_end_at(s)] == '\n');
        assert(false);
    }
    if j < line_end_at(s) {
        assert(s[j] != '\n');
        assert(false);
    }
}

/// A line with its terminating line feed removed also loses a final carriage
/// return.
pub open spec fn strip_cr(l: Seq<char>) -> Seq<char> {
    if l.len() > 0 && l.last() == '\r' {
        l.drop_last()
    } else {
        l
    }
}

/// The lines of `s`: split at line feeds, each terminated line losing an
/// optional final carriage return, with no empty line after a final line
/// feed.
pub open spec fn spec_lines(s: Seq<char>) -> Seq<Seq<char>>
    decreases s.len(),
{
    if s.len() == 0 {
        Seq::empty()
    } else {
        let j = line_end_at(s);
        if 0 <= j < s.len() {
            seq![strip_cr(s.take(j))] + spec_lines(s.skip(j + 1))
        } else {
            seq![s]
        }
    }
}

/// Split `s` into its lines.
pub fn split_lines(s: &str) -> (r: Vec<String>)
    ensures
        views_of(r@) == spec_lines(s@),
{
    let n = s.unicode_len();
    let mut lines: Vec<String> = Vec::new();
    let mut start: usize = 0;
    let mut pos: usize = 0;
    proof {
        assert(s@.skip(0) =~= s@);
        assert(views_of(lines@) =~~= Seq::<Seq<char>>::empty());
        assert(views_of(lines@) + spec_lines(s@.skip(0)) =~~= spec_lines(s@));
    }
    while pos < n
        invariant
            n == s@.len(),
            0 <= start <= pos <= n,
            forall|k: int| start <= k < pos ==> s@[k] != '\n',
            spec_lines(s@) == views_of(lines@) + spec_lines(s@.skip(start as int)),
        decreases n - pos,
    {
        let c = s.get_char(pos);
        if c == '\n' {
            let line = if pos > start && s.get_char(pos - 1) == '\r' {
                s.substring_char(start, pos - 1)
            } else {
                s.substring_char(start, pos)
            };
            let ghost tail = s@.skip(start as int);
            proof {
                assert(forall|k: int|
                    0 <= k < tail.len() ==> tail[k] == s@[start + k]);
                lemma_line_end_at_from_index(tail, pos - start);
                assert(tail.take(pos - start) =~= s@.subrange(start as int, pos as int));
                if pos > start && s@[pos - 1] == '\r' {
                    assert(strip_cr(tail.take(pos - start)) =~= s@.subrange(
                        start as int,
                        pos - 1,
                    ));
                } else {
                    assert(strip_cr(tail.take(pos - start)) =~= s@.subrange(
                        start as int,
                        pos as int,
                    ));
                }
                assert(tail.skip(pos - start + 1) =~= s@.skip(pos + 1));
                assert(spec_lines(tail) == seq![strip_cr(tail.take(pos - start))] + spec_lines(
                    s@.skip(pos + 1),
                ));
            }
            let ghost prev = lines@;
            let owned_line = line.to_owned();
            lines.push(owned_line);
            proof {
                assert forall|k: int| 0 <= k < views_of(lines@).len() implies views_of(lines@)[k]
                    == (views_of(prev) + seq![strip_cr(s@.skip(start as int).take(
                    pos - start,
                ))])[k] by {
                    if k < prev.len() {
                        assert(lines@[k] == prev[k]);
                    }
                }
                assert(views_of(lines@) =~~= views_of(prev) + seq![strip_cr(s@.skip(
                    start as int,
                ).take(pos - start))]);
                assert(views_of(lines@) + spec_lines(s@.skip(pos + 1)) =~~= (views_of(prev) + seq![
                    strip_cr(s@.skip(start as int).take(pos - start)),
                ]) + spec_lines(s@.skip(pos + 1)));
            }
            start = pos + 1;
        }
        pos += 1;
    }
    if start < n {
        let ghost tail = s@.skip(start as int);
        proof {
            assert(forall|k: int| 0 <= k < tail.len() ==> tail[k] == s@[start + k]);
            lemma_line_end_at_from_index(tail, tail.len() as int);
            assert(spec_lines(tail) == seq![tail]);
        }
        let line = s.substring_char(start, n);
        let ghost prev = lines@;
        lines.push(line.to_owned());
        proof {
            assert(line@ =~= tail);
            assert forall|k: int| 0 <= k < views_of(lines@).len() implies views_of(lines@)[k] == (
            views_of(prev) + seq![tail])[k] by {
                if k < prev.len() {
                    assert(lines@[k] == prev[k]);
                }
            }
            assert(views_of(lines@) =~~= views_of(prev) + seq![tail]);
            assert(spec_lines(s@) =~~= views_of(lines@));
        }
    } else {
        proof {
            assert(s@.skip(start as int) =~= Seq::<char>::empty());
            assert(spec_lines(s@.skip(start as int)) =~~= Seq::<Seq<char>>::empty());
            assert(spec_lines(s@) =~~= views_of(lines@));
        }
    }
    lines
}

/// The heading line that opens a `## Section` block.
pub open spec fn marker_of(section: Seq<char>) -> Seq<char> {
    "## "@ + section
}

/// First non-blank content line of a section, scanning after its marker:
/// repeated marker lines and blank lines are skipped, a heading ends the
/// section with nothing found, and any other line is the answer, trimmed.
pub open spec fn spec_section_first(lines: Seq<Seq<char>>, marker: Seq<char>) -> Option<Seq<char>>
    decreases lines.len(),
{
    if lines.len() == 0 {
        None
    } else {
        let t = spec_trim(lines[0]);
        if t == marker {
            spec_section_first(lines.drop_first(), marker)
        } else if t.len() == 0 {
            spec_section_first(lines.drop_first(), marker)
        } else if t[0] == '#' {
            None
        } else {
            Some(t)
        }
    }
}

/// The first non-empty line of the `## Section` block named by `marker`, or
/// `None` when the marker never occurs or its block holds no content line.
pub open spec fn spec_extract_section_lines(lines: Seq<Seq<char>>, marker: Seq<char>) -> Option<
    Seq<char>,
>
    decreases lines.len(),
{
    if lines.len() == 0 {
        None
    } else if spec_trim(lines[0]) == marker {
        spec_section_first(lines.drop_first(), marker)
    } else {
        spec_extract_section_lines(lines.drop_first(), marker)
    }
}

/// What [`extract_section`] yields on a document and section name.
pub open spec fn spec_extract_section(content: Seq<char>, section: Seq<char>) -> Option<Seq<char>> {
    spec_extract_section_lines(spec_lines(content), marker_of(section))
}

/// Extract the first non-empty line of a `## Section` block from markdown.
pub fn extract_section(content: &str, section: &str) -> (r: Option<String>)
    ensures
        match r {
            Some(x) => spec_extract_section(content@, section@) == Some(x@),
            None => spec_extract_section(content@, section@) is None,
        },
{
    let marker = str_concat("## ", section);
    let lines = split_lines(content);
    let ghost lv = views_of(lines@);
    let ghost m = marker_of(section@);
    let mut in_section = false;
    let mut i: usize = 0;
    proof {
        assert(lv.skip(0) =~~= lv);
    }
    while i < lines.len()
        invariant
            0 <= i <= lines@.len(),
            lv == views_of(lines@),
            m == marker@,
            m == marker_of(section@),
            lv == spec_lines(content@),
            spec_extract_section_lines(lv, m) == if in_section {
                spec_section_first(lv.skip(i as int), m)
            } else {
                spec_extract_section_lines(lv.skip(i as int), m)
            },
        decreases lines@.len() - i,
    {
        let ghost tail = lv.skip(i as int);
        proof {
            assert(tail[0] == lines@[i as int]@);
            assert(tail.drop_first() =~~= lv.skip(i + 1));
        }
        let t = trim_str(lines[i].as_str());
        if str_eq(t.as_str(), marker.as_str()) {
            in_section = true;
        } else if in_section {
            let tn = t.as_str().unicode_len();
            if tn == 0 {
                // blank line inside the section: skip
            } else if t.as_str().get_char(0) == '#' {
                proof {
                    assert(spec_section_first(tail, m) is None);
                }
                return None;
            } else {
                proof {
                    assert(spec_section_first(tail, m) == Some(t@));
                }
                return Some(t);
            }
        }
        i += 1;
    }
    proof {
        assert(lv.skip(lv.len() as int) =~~= Seq::<Seq<char>>::empty());
    }
    None
}

/// The raw lines collected from a section block, scanning after its marker:
/// repeated marker lines are skipped, the next heading ends the block, and
/// every other line is kept untrimmed.
pub open spec fn spec_full_collect(lines: Seq<Seq<char>>, marker: Seq<char>) -> Seq<Seq<char>>
    decreases lines.len(),
{
    if lines.len() == 0 {
        Seq::empty()
    } else {
        let t = spec_trim(lines[0]);
        if t == marker {
            spec_full_collect(lines.drop_first(), marker)
        } else if "## "@.is_prefix_of(t) {
            Seq::empty()
        } else {
            seq![lines[0]] + spec_full_collect(lines.drop_first(), marker)
        }
    }
}

/// The raw lines of the `## Section` block named by `marker`.
pub open spec fn spec_full_lines(lines: Seq<Seq<char>>, marker: Seq<char>) -> Seq<Seq<char>>
    decreases lines.len(),
{
    if lines.len() == 0 {
        Seq::empty()
    } else if spec_trim(lines[0]) == marker {
        spec_full_collect(lines.drop_first(), marker)
    } else {
        spec_full_lines(lines.drop_first(), marker)
    }
}

/// Lines joined with a line feed between each pair.
pub open spec fn spec_join_nl(lines: Seq<Seq<char>>) -> Seq<char>
    decreases lines.len(),
{
    if lines.len() == 0 {
        Seq::empty()
    } else if lines.len() == 1 {
        lines[0]
    } else {
        spec_join_nl(lines.drop_last()) + seq!['\n'] + lines.last()
    }
}

/// What [`extract_full_section`] yields: the block's lines joined and
/// trimmed, or `None` when no line was collected or only whitespace was.
pub open spec fn spec_extract_full_section(content: Seq<char>, section: Seq<char>) -> Option<
    Seq<char>,
> {
    let c = spec_full_lines(spec_lines(content), marker_of(section));
    if c.len() == 0 {
        None
    } else {
        let t = spec_trim(spec_join_nl(c));
        if t.len() == 0 {
            None
        } else {
            Some(t)
        }
    }
}

/// Extract the full multi-line content of a `## Section` block: every line
/// between the marker and the next heading (or the end of the document),
/// joined and trimmed.
pub fn extract_full_section(content: &str, section: &str) -> (r: Option<String>)
    ensures
        match r {
            Some(x) => spec_extract_full_section(content@, section@) == Some(x@),
            None => spec_extract_full_section(content@, section@) is None,
        },
{
    let marker = str_concat("## ", section);
    let lines = split_lines(content);
    let ghost lv = views_of(lines@);
    let ghost m = marker_of(section@);
    let mut collected: Vec<String> = Vec::new();
    let mut in_section = false;
    let mut i: usize = 0;
    let mut ended = false;
    proof {
        assert(lv.skip(0) =~~= lv);
        assert(views_of(collected@) =~~= Seq::<Seq<char>>::empty());
        assert(views_of(collected@) + spec_full_lines(lv.skip(0), m) =~~= spec_full_lines(lv, m));
    }
    while i < lines.len() && !ended
        invariant
            0 <= i <= lines@.len(),
            lv == views_of(lines@),
            m == marker@,
            m == marker_of(section@),
            lv == spec_lines(content@),
            !ended ==> spec_full_lines(lv, m) == views_of(collected@) + (if in_section {
                spec_full_collect(lv.skip(i as int), m)
            } else {
                spec_full_lines(lv.skip(i as int), m)
            }),
            ended ==> spec_full_lines(lv, m) == views_of(collected@),
            ended ==> in_section,
        decreases lines@.len() - i,
    {
        let ghost tail = lv.skip(i as int);
        proof {
            assert(tail[0] == lines@[i as int]@);
            assert(tail.drop_first() =~~= lv.skip(i + 1));
        }
        let t = trim_str(lines[i].as_str());
        if str_eq(t.as_str(), marker.as_str()) {
            in_section = true;
        } else if in_section {
            if str_starts_with(t.as_str(), "## ") {
                ended = true;
                proof {
                    assert(spec_full_collect(tail, m) =~~= Seq::<Seq<char>>::empty());
                    assert(views_of(collected@) + Seq::<Seq<char>>::empty() =~~= views_of(
                        collected@,
                    ));
                }
            } else {
                let ghost prev = collected@;
                collected.push(lines[i].clone());
                proof {
                    assert(collected@ == prev.push(lines@[i as int]));
                    assert forall|k: int| 0 <= k < views_of(collected@).len() implies views_of(
                        collected@,
                    )[k] == (views_of(prev) + seq![tail[0]])[k] by {
                        if k < prev.len() {
                            assert(collected@[k] == prev[k]);
                        }
                    }
                    assert(views_of(collected@) =~~= views_of(prev) + seq![tail[0]]);
                    assert(spec_full_collect(tail, m) == seq![tail[0]] + spec_full_collect(
                        lv.skip(i + 1),
                        m,
                    ));
                    assert(views_of(prev) + (seq![tail[0]] + spec_full_collect(lv.skip(i + 1), m))
                        =~~= views_of(collected@) + spec_full_collect(lv.skip(i + 1), m));
                }
            }
        }
        i += 1;
    }
    proof {
        if !ended {
            assert(lv.skip(lv.len() as int) =~~= Seq::<Seq<char>>::empty());
            if i == lines@.len() {
                assert(spec_full_collect(lv.skip(lv.len() as int), m) =~~= Seq::<
                    Seq<char>,
                >::empty());
                assert(spec_full_lines(lv.skip(lv.len() as int), m) =~~= Seq::<Seq<char>>::empty());
            }
            assert(views_of(collected@) + Seq::<Seq<char>>::empty() =~~= views_of(collected@));
            assert(spec_full_lines(lv, m) == views_of(collected@));
        }
    }
    if collected.len() == 0 {
        return None;
    }
    // join the collected lines with line feeds
    let mut joined: String = collected[0].clone();
    let mut k: usize = 1;
    while k < collected.len()
        invariant
            1 <= k <= collected@.len(),
            collected@.len() >= 1,
            joined@ == spec_join_nl(views_of(collected@).take(k as int)),
        decreases collected@.len() - k,
    {
        joined.append("\n");
        joined.append(collected[k].as_str());
        proof {
            reveal_strlit("\n");
            let cv = views_of(collected@);
            assert(cv.take(k + 1).drop_last() =~~= cv.take(k as int));
            assert(cv.take(k + 1).last() == collected@[k as int]@);
            assert("\n"@ =~= seq!['\n']);
            assert(joined@ =~= spec_join_nl(cv.take(k + 1)));
        }
        k += 1;
    }
    proof {
        assert(views_of(collected@).take(collected@.len() as int) =~~= views_of(collected@));
    }
    let trimmed = trim_str(joined.as_str());
    if trimmed.as_str().unicode_len() == 0 {
        None
    } else {
        Some(trimmed)
    }
}

/// Normalize a raw role line: trim, lower-case, and replace spaces by
/// dashes.
pub fn normalize_role(raw: &str) -> (r: String)
    ensures
        r@ == spec_dashify(lower_of(spec_trim(raw@))),
{
    let t = trim_str(raw);
    let low = lowercase(t.as_str());
    dashify(low.as_str())
}

/// Parse an identity document. The role comes from the first line of the
/// `## Role` block (`"unknown"` when absent), normalized; the behavior is the
/// full `## Behavior` block (empty when absent); the identifier joins the
/// agent folder's name with the role.
pub fn soul_from_content(content: &str, folder_name: &str) -> (r: Soul)
    ensures
        r.role@ == (match spec_extract_section(content@, "Role"@) {
            Some(line) => spec_dashify(lower_of(spec_trim(line))),
            None => spec_dashify(lower_of(spec_trim("unknown"@))),
        }),
        r.behavior@ == (match spec_extract_full_section(content@, "Behavior"@) {
            Some(b) => b,
            None => Seq::<char>::empty(),
        }),
        r.agent_id@ == folder_name@ + "-"@ + r.role@,
        r.body@ == content@,
{
    let role_line = match extract_section(content, "Role") {
        Some(line) => line,
        None => "unknown".to_owned(),
    };
    let role = normalize_role(role_line.as_str());
    let behavior = match extract_full_section(content, "Behavior") {
        Some(b) => b,
        None => String::new(),
    };
    let mut agent_id = folder_name.to_owned();
    agent_id.append("-");
    agent_id.append(role.as_str());
    Soul { role, agent_id, behavior, body: content.to_owned() }
}

} // verus!
