//! The text of the session: a thread rendered as lines, the text that the editor opens
//! with, and the reply read back from it.
use vstd::prelude::*;
use vstd::string::*;
use crate::skip::strings_view;
use crate::thread::{Comment, Thread};

verus! {

/// The pieces of a text between its line feeds; a text ending in one ends in an empty
/// piece.
pub open spec fn pieces_of(s: Seq<char>) -> Seq<Seq<char>>
    decreases s.len(),
{
    if s.len() == 0 {
        seq![Seq::<char>::empty()]
    } else {
        let prev = pieces_of(s.drop_last());
        if s.last() == '\n' {
            prev.push(Seq::<char>::empty())
        } else {
            prev.update(prev.len() - 1, prev.last().push(s.last()))
        }
    }
}

/// A line ended by `\r\n` loses its carriage return.
pub open spec fn without_cr(l: Seq<char>) -> Seq<char> {
    if l.len() > 0 && l.last() == '\r' {
        l.drop_last()
    } else {
        l
    }
}

/// The lines of a text: split at each `\n` or `\r\n`, with no line after a final line
/// ending, and none in an empty text.
pub open spec fn lines_of(s: Seq<char>) -> Seq<Seq<char>> {
    let p = pieces_of(s);
    let ended = p.drop_last().map_values(|l: Seq<char>| without_cr(l));
    if p.last().len() == 0 {
        ended
    } else {
        ended.push(p.last())
    }
}

/// Splits a text into its lines.
pub fn split_lines(s: &str) -> (r: Vec<String>)
    ensures
        strings_view(r@) == lines_of(s@),
{
    let n = s.unicode_len();
    let mut done: Vec<String> = Vec::new();
    let mut start: usize = 0;
    let mut i: usize = 0;
    proof {
        assert(s@.subrange(0, 0) =~= Seq::<char>::empty());
        assert(pieces_of(s@.subrange(0, 0)).drop_last() =~= Seq::<Seq<char>>::empty());
        assert(strings_view(done@) =~= Seq::<Seq<char>>::empty());
    }
    while i < n
        invariant
            n == s@.len(),
            start <= i <= n,
            pieces_of(s@.subrange(0, i as int)).len() >= 1,
            pieces_of(s@.subrange(0, i as int)).last() == s@.subrange(start as int, i as int),
            strings_view(done@) == pieces_of(s@.subrange(0, i as int)).drop_last().map_values(
                |l: Seq<char>| without_cr(l),
            ),
        decreases n - i,
    {
        let c = s.get_char(i);
        let ghost before = strings_view(done@);
        let ghost prev = pieces_of(s@.subrange(0, i as int));
        proof {
            let t = s@.subrange(0, i + 1);
            assert(t.drop_last() =~= s@.subrange(0, i as int));
            assert(t.last() == c);
        }
        if c == '\n' {
            let ghost st = start;
            let end = if i > start && s.get_char(i - 1) == '\r' { i - 1 } else { i };
            proof {
                let l = s@.subrange(st as int, i as int);
                if end < i {
                    assert(s@.subrange(st as int, end as int) =~= l.drop_last());
                } else {
                    assert(s@.subrange(st as int, end as int) =~= l);
                }
                assert(s@.subrange(st as int, end as int) == without_cr(l));
            }
            done.push(String::from_str(s.substring_char(start, end)));
            start = i + 1;
            proof {
                let next = prev.push(Seq::<char>::empty());
                assert(next.drop_last() =~= prev);
                assert(prev =~= prev.drop_last().push(prev.last()));
                assert(strings_view(done@) =~= before.push(without_cr(s@.subrange(st as int, i as int))));
                assert(strings_view(done@) =~= next.drop_last().map_values(|l: Seq<char>| without_cr(l)));
                assert(s@.subrange(start as int, i + 1) =~= Seq::<char>::empty());
            }
        } else {
            proof {
                let next = prev.update(prev.len() - 1, prev.last().push(c));
                assert(next.drop_last() =~= prev.drop_last());
                assert(s@.subrange(start as int, i + 1) =~= s@.subrange(start as int, i as int).push(c));
            }
        }
        i = i + 1;
    }
    proof {
        assert(s@.subrange(0, n as int) =~= s@);
    }
    if start < n {
        let ghost before = strings_view(done@);
        done.push(String::from_str(s.substring_char(start, n)));
        assert(strings_view(done@) =~= before.push(s@.subrange(start as int, n as int)));
    }
    done
}

/// Each line with `prefix` before it.
pub open spec fn prefixed(prefix: Seq<char>, lines: Seq<Seq<char>>) -> Seq<Seq<char>> {
    lines.map_values(|l: Seq<char>| prefix + l)
}

fn prefix_lines(prefix: &str, lines: Vec<String>) -> (r: Vec<String>)
    ensures
        strings_view(r@) == prefixed(prefix@, strings_view(lines@)),
{
    let mut r: Vec<String> = Vec::new();
    let mut k: usize = 0;
    while k < lines.len()
        invariant
            k <= lines@.len(),
            strings_view(r@) == prefixed(prefix@, strings_view(lines@.subrange(0, k as int))),
        decreases lines@.len() - k,
    {
        let ghost before = r@;
        let mut l = String::from_str(prefix);
        l.append(lines[k].as_str());
        r.push(l);
        proof {
            assert(lines@.subrange(0, k + 1) =~= lines@.subrange(0, k as int).push(lines@[k as int]));
            assert(strings_view(r@) =~= strings_view(before).push(prefix@ + lines@[k as int]@));
            assert(strings_view(r@) =~= prefixed(prefix@, strings_view(lines@.subrange(0, k + 1))));
        }
        k = k + 1;
    }
    assert(lines@.subrange(0, k as int) =~= lines@);
    r
}

/// A comment as lines, each behind `prefix`: its author, its body, then a separating
/// line.
pub open spec fn block_of(c: Comment, prefix: Seq<char>) -> Seq<Seq<char>> {
    seq![prefix + c.author@ + ":"@] + prefixed(prefix, lines_of(c.body@)) + seq![prefix]
}

/// The comments in order, each as its block.
pub open spec fn blocks_of(cs: Seq<Comment>, prefix: Seq<char>) -> Seq<Seq<char>>
    decreases cs.len(),
{
    if cs.len() == 0 {
        Seq::empty()
    } else {
        blocks_of(cs.drop_last(), prefix) + block_of(cs.last(), prefix)
    }
}

fn comment_blocks(cs: &Vec<Comment>, prefix: &str) -> (r: Vec<String>)
    ensures
        strings_view(r@) == blocks_of(cs@, prefix@),
{
    let mut r: Vec<String> = Vec::new();
    let mut k: usize = 0;
    while k < cs.len()
        invariant
            k <= cs@.len(),
            strings_view(r@) == blocks_of(cs@.subrange(0, k as int), prefix@),
        decreases cs@.len() - k,
    {
        let c = &cs[k];
        let ghost before = r@;
        let mut head = String::from_str(prefix);
        head.append(c.author.as_str());
        head.append(":");
        r.push(head);
        let mut body = prefix_lines(prefix, split_lines(c.body.as_str()));
        let ghost body_v = body@;
        r.append(&mut body);
        r.push(String::from_str(prefix));
        proof {
            let cs1 = cs@.subrange(0, k + 1);
            assert(cs1.drop_last() =~= cs@.subrange(0, k as int));
            assert(cs1.last() == *c);
            assert(strings_view(r@) =~= strings_view(before) + block_of(*c, prefix@)) by {
                assert(r@ =~= before.push(r@[before.len() as int]) + body_v + seq![r@[r@.len() - 1]]);
            }
        }
        k = k + 1;
    }
    assert(cs@.subrange(0, k as int) =~= cs@);
    r
}

/// A thread as the lines to show: its file, the diff excerpt of its first comment if
/// any, a blank line, then its comments.
pub open spec fn rendered(t: Thread) -> Seq<Seq<char>> {
    seq![t.path@] + match t.comments@[0].diff_excerpt {
        Some(d) => lines_of(d@),
        None => Seq::empty(),
    } + seq![Seq::<char>::empty()] + blocks_of(t.comments@, Seq::<char>::empty())
}

pub fn render_thread(t: &Thread) -> (r: Vec<String>)
    requires
        t.wf(),
    ensures
        strings_view(r@) == rendered(*t),
{
    let mut r: Vec<String> = Vec::new();
    r.push(t.path.clone());
    let ghost head = r@;
    let mut excerpt = match &t.comments[0].diff_excerpt {
        Some(d) => split_lines(d.as_str()),
        None => Vec::new(),
    };
    let ghost ex = excerpt@;
    r.append(&mut excerpt);
    r.push(String::new());
    let ghost mid = r@;
    let mut blocks = comment_blocks(&t.comments, "");
    let ghost bl = blocks@;
    r.append(&mut blocks);
    proof {
        assert(strings_view(r@) =~= strings_view(head) + strings_view(ex) + seq![Seq::<char>::empty()] + strings_view(bl)) by {
            assert(r@ =~= head + ex + seq![mid[mid.len() - 1]] + bl);
        }
        assert(""@ =~= Seq::<char>::empty()) by {
            reveal_strlit("");
        }
    }
    r
}

/// The lines as one text, each ended by a line feed.
pub open spec fn joined(ls: Seq<Seq<char>>) -> Seq<char>
    decreases ls.len(),
{
    if ls.len() == 0 {
        Seq::empty()
    } else {
        joined(ls.drop_last()) + ls.last() + "\n"@
    }
}

fn join_lines(ls: &Vec<String>) -> (r: String)
    ensures
        r@ == joined(strings_view(ls@)),
{
    let mut r = String::new();
    let mut k: usize = 0;
    while k < ls.len()
        invariant
            k <= ls@.len(),
            r@ == joined(strings_view(ls@.subrange(0, k as int))),
        decreases ls@.len() - k,
    {
        r.append(ls[k].as_str());
        r.append("\n");
        proof {
            assert(strings_view(ls@.subrange(0, k + 1)).drop_last() =~= strings_view(ls@.subrange(0, k as int)));
        }
        k = k + 1;
    }
    assert(ls@.subrange(0, k as int) =~= ls@);
    r
}

/// The line that the editor shows under the space left for the reply.
pub open spec fn hint() -> Seq<char> {
    "# Write the reply above. Lines starting with '#' are left out; an empty reply cancels."@
}

/// The text that the editor opens with to answer `t`: an empty line to write in, the
/// hint, then the thread's comments, each line behind `# `.
pub open spec fn seed_of(t: Thread) -> Seq<char> {
    joined(seq![Seq::<char>::empty(), hint()] + blocks_of(t.comments@, "# "@))
}

pub fn reply_seed(t: &Thread) -> (r: String)
    ensures
        r@ == seed_of(*t),
{
    let mut ls: Vec<String> = Vec::new();
    ls.push(String::new());
    ls.push(String::from_str("# Write the reply above. Lines starting with '#' are left out; an empty reply cancels."));
    let ghost head = ls@;
    let mut blocks = comment_blocks(&t.comments, "# ");
    let ghost bl = blocks@;
    ls.append(&mut blocks);
    proof {
        assert(strings_view(ls@) =~= seq![Seq::<char>::empty(), hint()] + strings_view(bl)) by {
            assert(ls@ =~= head + bl);
            assert(""@ =~= Seq::<char>::empty()) by {
                reveal_strlit("");
            }
        }
    }
    join_lines(&ls)
}

/// A line that the editor's text leaves out: one starting with `#`.
pub open spec fn is_comment_line(l: Seq<char>) -> bool {
    l.len() > 0 && l[0] == '#'
}

/// The lines as one text, with a line feed between each two.
pub open spec fn separated(ls: Seq<Seq<char>>) -> Seq<char>
    decreases ls.len(),
{
    if ls.len() == 0 {
        Seq::empty()
    } else if ls.len() == 1 {
        ls[0]
    } else {
        separated(ls.drop_last()) + "\n"@ + ls.last()
    }
}

/// The characters that have Unicode's White_Space property.
pub open spec fn is_white(c: char) -> bool {
    let u = c as u32;
    (0x9 <= u <= 0xd) || u == 0x20 || u == 0x85 || u == 0xa0 || u == 0x1680 || (0x2000 <= u
        <= 0x200a) || u == 0x2028 || u == 0x2029 || u == 0x202f || u == 0x205f || u == 0x3000
}

/// The text without its leading white space.
pub open spec fn trimmed_start(s: Seq<char>) -> Seq<char>
    decreases s.len(),
{
    if s.len() > 0 && is_white(s[0]) {
        trimmed_start(s.drop_first())
    } else {
        s
    }
}

/// The text without its trailing white space.
pub open spec fn trimmed_end(s: Seq<char>) -> Seq<char>
    decreases s.len(),
{
    if s.len() > 0 && is_white(s.last()) {
        trimmed_end(s.drop_last())
    } else {
        s
    }
}

/// The text with leading and trailing white space removed.
pub open spec fn trimmed(s: Seq<char>) -> Seq<char> {
    trimmed_end(trimmed_start(s))
}

/// Relies on `str::trim`: it removes the leading and trailing characters that have the
/// White_Space property.
#[verifier::external_body]
fn trim(s: &str) -> (r: &str)
    ensures
        r@ == trimmed(s@),
{
    s.trim()
}

/// The reply that an edited text holds: the lines not starting with `#`, trimmed.
pub open spec fn reply_text(edited: Seq<char>) -> Seq<char> {
    trimmed(separated(lines_of(edited).filter(|l: Seq<char>| !is_comment_line(l))))
}

/// Reads the reply back from the edited text; `None` where nothing is left, which
/// cancels the reply.
pub fn reply_from_edit(edited: &str) -> (r: Option<String>)
    ensures
        r is None <==> reply_text(edited@).len() == 0,
        r matches Some(b) ==> b@ == reply_text(edited@),
{
    let ls = split_lines(edited);
    let ghost all = strings_view(ls@);
    let ghost keep = |l: Seq<char>| !is_comment_line(l);
    let mut out = String::new();
    let mut any = false;
    let mut k: usize = 0;
    while k < ls.len()
        invariant
            k <= ls@.len(),
            all == strings_view(ls@),
            keep == (|l: Seq<char>| !is_comment_line(l)),
            any == (all.subrange(0, k as int).filter(keep).len() > 0),
            out@ == separated(all.subrange(0, k as int).filter(keep)),
        decreases ls@.len() - k,
    {
        let line = ls[k].as_str();
        let comment = line.unicode_len() > 0 && line.get_char(0) == '#';
        let ghost prev = all.subrange(0, k as int);
        proof {
            let next = all.subrange(0, k + 1);
            assert(next.drop_last() =~= prev);
            assert(next.last() == line@);
            reveal(Seq::filter);
            assert(next.filter(keep) == if keep(line@) { prev.filter(keep).push(line@) } else { prev.filter(keep) });
        }
        if !comment {
            if any {
                out.append("\n");
            }
            out.append(line);
            proof {
                let f = prev.filter(keep).push(line@);
                assert(f.drop_last() =~= prev.filter(keep));
            }
            any = true;
        }
        k = k + 1;
    }
    assert(all.subrange(0, k as int) =~= all);
    let body = trim(out.as_str());
    if body.unicode_len() == 0 {
        None
    } else {
        Some(String::from_str(body))
    }
}

} // verus!
