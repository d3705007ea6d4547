//! Rewriting of the bundle manifest so that it points at the packaged archive.
//!
//! The manifest is processed line by line, with the line splitting of the
//! standard library's `str::lines`: lines end at `\n`, a `\r` directly before
//! that `\n` belongs to the line ending, and a final line ending is optional.
//! A line whose text, after leading white space, starts with the key
//! `"artifact"` is replaced by an artifact entry naming the archive; one that
//! starts with `"format"` is replaced by a `tar.gz` format entry; all other
//! lines are kept as they are. The lines are joined with `\n` and the result
//! ends with a single `\n`.

use vstd::prelude::*;

verus! {

/// White space as `char::is_whitespace` defines it (the Unicode `White_Space`
/// property).
pub open spec fn is_white_space(c: char) -> bool {
    let u = c as u32;
    ||| 0x09 <= u <= 0x0d
    ||| u == 0x20
    ||| u == 0x85
    ||| u == 0xa0
    ||| u == 0x1680
    ||| 0x2000 <= u <= 0x200a
    ||| u == 0x2028
    ||| u == 0x2029
    ||| u == 0x202f
    ||| u == 0x205f
    ||| u == 0x3000
}

/// The text with its leading white space removed.
pub open spec fn trim_start(s: Seq<char>) -> Seq<char>
    decreases s.len(),
{
    if s.len() > 0 && is_white_space(s[0]) {
        trim_start(s.drop_first())
    } else {
        s
    }
}

/// A line taken off with its `\n`: a `\r` that precedes the `\n` goes too.
pub open spec fn strip_cr(line: Seq<char>) -> Seq<char> {
    if line.len() > 0 && line.last() == '\r' {
        line.drop_last()
    } else {
        line
    }
}

/// The lines of `s[start..]`, given that the current line began at `start`
/// and that `s[start..i]` holds no `\n`.
pub open spec fn lines_scan(s: Seq<char>, start: int, i: int) -> Seq<Seq<char>>
    decreases s.len() - i,
{
    if i >= s.len() {
        if start < s.len() {
            seq![s.subrange(start, s.len() as int)]
        } else {
            seq![]
        }
    } else if s[i] == '\n' {
        seq![strip_cr(s.subrange(start, i))] + lines_scan(s, i + 1, i + 1)
    } else {
        lines_scan(s, start, i + 1)
    }
}

/// The lines of a text, as `str::lines` yields them.
pub open spec fn text_lines(s: Seq<char>) -> Seq<Seq<char>> {
    lines_scan(s, 0, 0)
}

/// The lines joined with `\n` between them.
pub open spec fn join_lines(ls: Seq<Seq<char>>) -> Seq<char>
    decreases ls.len(),
{
    if ls.len() == 0 {
        seq![]
    } else if ls.len() == 1 {
        ls[0]
    } else {
        join_lines(ls.drop_last()) + seq!['\n'] + ls.last()
    }
}

/// `"artifact"`, quotes included.
pub open spec fn artifact_key() -> Seq<char> {
    seq!['"', 'a', 'r', 't', 'i', 'f', 'a', 'c', 't', '"']
}

/// `"format"`, quotes included.
pub open spec fn format_key() -> Seq<char> {
    seq!['"', 'f', 'o', 'r', 'm', 'a', 't', '"']
}

/// `  "artifact": "` — what precedes the archive name on the artifact line.
pub open spec fn artifact_entry_head() -> Seq<char> {
    seq![' ', ' ', '"', 'a', 'r', 't', 'i', 'f', 'a', 'c', 't', '"', ':', ' ', '"']
}

/// `",` — what follows the archive name on the artifact line.
pub open spec fn artifact_entry_tail() -> Seq<char> {
    seq!['"', ',']
}

/// `  "format": "tar.gz",` — the replacement format line.
pub open spec fn format_entry() -> Seq<char> {
    seq![
        ' ', ' ', '"', 'f', 'o', 'r', 'm', 'a', 't', '"', ':', ' ', '"', 't', 'a', 'r', '.', 'g',
        'z', '"', ',',
    ]
}

/// What one manifest line becomes.
pub open spec fn rewrite_line(line: Seq<char>, archive_name: Seq<char>) -> Seq<char> {
    let t = trim_start(line);
    if artifact_key().is_prefix_of(t) {
        artifact_entry_head() + archive_name + artifact_entry_tail()
    } else if format_key().is_prefix_of(t) {
        format_entry()
    } else {
        line
    }
}

/// The rewritten manifest.
pub open spec fn rewritten_manifest(manifest: Seq<char>, archive_name: Seq<char>) -> Seq<char> {
    join_lines(text_lines(manifest).map_values(|l: Seq<char>| rewrite_line(l, archive_name)))
        + seq!['\n']
}

fn char_is_white_space(c: char) -> (r: bool)
    ensures
        r == is_white_space(c),
{
    let u = c as u32;
    (0x09 <= u && u <= 0x0d) || u == 0x20 || u == 0x85 || u == 0xa0 || u == 0x1680 || (0x2000
        <= u && u <= 0x200a) || u == 0x2028 || u == 0x2029 || u == 0x202f || u == 0x205f || u
        == 0x3000
}

/// The characters of a string slice, in order.
fn chars_of(s: &str) -> (r: Vec<char>)
    ensures
        r@ == s@,
{
    let mut out: Vec<char> = Vec::new();
    for c in it: s.chars()
        invariant
            out@ == it.seq().take(it.index() as int),
            it.seq() == s@,
    {
        out.push(c);
    }
    out
}

fn artifact_key_chars() -> (r: Vec<char>)
    ensures
        r@ == artifact_key(),
{
    let r = vec!['"', 'a', 'r', 't', 'i', 'f', 'a', 'c', 't', '"'];
    assert(r@ =~= artifact_key());
    r
}

fn format_key_chars() -> (r: Vec<char>)
    ensures
        r@ == format_key(),
{
    let r = vec!['"', 'f', 'o', 'r', 'm', 'a', 't', '"'];
    assert(r@ =~= format_key());
    r
}

fn artifact_entry_head_chars() -> (r: Vec<char>)
    ensures
        r@ == artifact_entry_head(),
{
    let r = vec![' ', ' ', '"', 'a', 'r', 't', 'i', 'f', 'a', 'c', 't', '"', ':', ' ', '"'];
    assert(r@ =~= artifact_entry_head());
    r
}

fn artifact_entry_tail_chars() -> (r: Vec<char>)
    ensures
        r@ == artifact_entry_tail(),
{
    let r = vec!['"', ','];
    assert(r@ =~= artifact_entry_tail());
    r
}

fn format_entry_chars() -> (r: Vec<char>)
    ensures
        r@ == format_entry(),
{
    let r = vec![
        ' ', ' ', '"', 'f', 'o', 'r', 'm', 'a', 't', '"', ':', ' ', '"', 't', 'a', 'r', '.', 'g',
        'z', '"', ',',
    ];
    assert(r@ =~= format_entry());
    r
}

/// The fixed pieces of text that rewriting a line may need.
struct LineRewriter {
    artifact_key: Vec<char>,
    format_key: Vec<char>,
    artifact_head: Vec<char>,
    artifact_tail: Vec<char>,
    format_entry: Vec<char>,
    archive_name: Vec<char>,
}

impl LineRewriter {
    spec fn wf(&self) -> bool {
        &&& self.artifact_key@ == artifact_key()
        &&& self.format_key@ == format_key()
        &&& self.artifact_head@ == artifact_entry_head()
        &&& self.artifact_tail@ == artifact_entry_tail()
        &&& self.format_entry@ == format_entry()
    }

    fn new(archive_name: Vec<char>) -> (r: Self)
        ensures
            r.wf(),
            r.archive_name@ == archive_name@,
    {
        LineRewriter {
            artifact_key: artifact_key_chars(),
            format_key: format_key_chars(),
            artifact_head: artifact_entry_head_chars(),
            artifact_tail: artifact_entry_tail_chars(),
            format_entry: format_entry_chars(),
            archive_name,
        }
    }

    /// Appends `s[from..to]` with the line rule applied.
    fn push_line(&self, out: &mut Vec<char>, s: &Vec<char>, from: usize, to: usize)
        requires
            self.wf(),
            from <= to <= s.len(),
        ensures
            final(out)@ == old(out)@ + rewrite_line(
                s@.subrange(from as int, to as int),
                self.archive_name@,
            ),
    {
        let t = skip_white_space(s, from, to);
        if has_prefix_at(s, t, to, &self.artifact_key) {
            push_all(out, &self.artifact_head, 0, self.artifact_head.len());
            push_all(out, &self.archive_name, 0, self.archive_name.len());
            push_all(out, &self.artifact_tail, 0, self.artifact_tail.len());
            proof {
                assert(self.artifact_head@.subrange(0, self.artifact_head@.len() as int)
                    =~= self.artifact_head@);
                assert(self.archive_name@.subrange(0, self.archive_name@.len() as int)
                    =~= self.archive_name@);
                assert(self.artifact_tail@.subrange(0, self.artifact_tail@.len() as int)
                    =~= self.artifact_tail@);
                assert(final(out)@ =~= old(out)@ + (artifact_entry_head() + self.archive_name@
                    + artifact_entry_tail()));
            }
        } else if has_prefix_at(s, t, to, &self.format_key) {
            push_all(out, &self.format_entry, 0, self.format_entry.len());
            proof {
                assert(self.format_entry@.subrange(0, self.format_entry@.len() as int)
                    =~= self.format_entry@);
            }
        } else {
            push_all(out, s, from, to);
        }
    }
}

/// Appends `src[from..to]`.
fn push_all(out: &mut Vec<char>, src: &Vec<char>, from: usize, to: usize)
    requires
        from <= to <= src.len(),
    ensures
        final(out)@ == old(out)@ + src@.subrange(from as int, to as int),
{
    let ghost start = out@;
    let mut k = from;
    while k < to
        invariant
            from <= k <= to <= src.len(),
            out@ == start + src@.subrange(from as int, k as int),
        decreases to - k,
    {
        out.push(src[k]);
        proof {
            assert(src@.subrange(from as int, k + 1) =~= src@.subrange(from as int, k as int).push(
                src@[k as int],
            ));
        }
        k += 1;
    }
}

/// Whether `key` is a prefix of `s[from..to]`.
fn has_prefix_at(s: &Vec<char>, from: usize, to: usize, key: &Vec<char>) -> (r: bool)
    requires
        from <= to <= s.len(),
    ensures
        r == key@.is_prefix_of(s@.subrange(from as int, to as int)),
{
    if to - from < key.len() {
        return false;
    }
    let mut k: usize = 0;
    while k < key.len()
        invariant
            from + key.len() <= to <= s.len(),
            k <= key.len(),
            forall|j: int| 0 <= j < k ==> key@[j] == s@[from + j],
        decreases key.len() - k,
    {
        if key[k] != s[from + k] {
            proof {
                assert(s@.subrange(from as int, to as int).subrange(0, key@.len() as int)[k as int]
                    == s@[from + k]);
            }
            return false;
        }
        k += 1;
    }
    proof {
        assert(key@ =~= s@.subrange(from as int, to as int).subrange(0, key@.len() as int));
    }
    true
}

/// The first position in `s[from..to]` that is not white space (or `to`).
fn skip_white_space(s: &Vec<char>, from: usize, to: usize) -> (t: usize)
    requires
        from <= to <= s.len(),
    ensures
        from <= t <= to,
        trim_start(s@.subrange(from as int, to as int)) == s@.subrange(t as int, to as int),
{
    let mut t = from;
    while t < to && char_is_white_space(s[t])
        invariant
            from <= t <= to <= s.len(),
            trim_start(s@.subrange(from as int, to as int)) == trim_start(
                s@.subrange(t as int, to as int),
            ),
        decreases to - t,
    {
        proof {
            assert(s@.subrange(t as int, to as int).drop_first() =~= s@.subrange(
                t + 1,
                to as int,
            ));
        }
        t += 1;
    }
    t
}

/// Joining one more line onto a list.
proof fn lemma_join_push(ls: Seq<Seq<char>>, line: Seq<char>)
    ensures
        join_lines(ls.push(line)) == if ls.len() == 0 {
            line
        } else {
            join_lines(ls) + seq!['\n'] + line
        },
{
    assert(ls.push(line).drop_last() =~= ls);
}

/// The manifest rewrite, on characters.
fn rewrite_chars(s: &Vec<char>, archive_name: Vec<char>) -> (r: Vec<char>)
    ensures
        r@ == rewritten_manifest(s@, archive_name@),
{
    let ghost name = archive_name@;
    let ghost f = |l: Seq<char>| rewrite_line(l, name);
    let rw = LineRewriter::new(archive_name);
    let mut out: Vec<char> = Vec::new();
    let mut start: usize = 0;
    let mut i: usize = 0;
    let mut first = true;
    let ghost mut done: Seq<Seq<char>> = seq![];
    while i < s.len()
        invariant
            rw.wf(),
            rw.archive_name@ == name,
            f == (|l: Seq<char>| rewrite_line(l, name)),
            start <= i <= s.len(),
            text_lines(s@) == done + lines_scan(s@, start as int, i as int),
            out@ == join_lines(done.map_values(f)),
            first == (done.len() == 0),
        decreases s.len() - i,
    {
        if s[i] == '\n' {
            let end = if i > start && s[i - 1] == '\r' {
                i - 1
            } else {
                i
            };
            let ghost line = s@.subrange(start as int, end as int);
            proof {
                assert(strip_cr(s@.subrange(start as int, i as int)) =~= line);
                assert(done + lines_scan(s@, start as int, i as int) =~= done.push(line)
                    + lines_scan(s@, i + 1, i + 1));
                lemma_join_push(done.map_values(f), f(line));
                assert(done.push(line).map_values(f) =~= done.map_values(f).push(f(line)));
            }
            let ghost before = out@;
            if !first {
                out.push('\n');
            }
            rw.push_line(&mut out, s, start, end);
            proof {
                if done.len() == 0 {
                    assert(out@ =~= before + f(line));
                } else {
                    assert(out@ =~= before + seq!['\n'] + f(line));
                }
                done = done.push(line);
            }
            first = false;
            start = i + 1;
        }
        i += 1;
    }
    if start < s.len() {
        let ghost line = s@.subrange(start as int, s@.len() as int);
        proof {
            assert(done + lines_scan(s@, start as int, i as int) =~= done.push(line));
            lemma_join_push(done.map_values(f), f(line));
            assert(done.push(line).map_values(f) =~= done.map_values(f).push(f(line)));
        }
        let ghost before = out@;
        if !first {
            out.push('\n');
        }
        rw.push_line(&mut out, s, start, s.len());
        proof {
            if done.len() == 0 {
                assert(out@ =~= before + f(line));
            } else {
                assert(out@ =~= before + seq!['\n'] + f(line));
            }
            done = done.push(line);
        }
    } else {
        proof {
            assert(done + lines_scan(s@, start as int, i as int) =~= done);
        }
    }
    out.push('\n');
    proof {
        assert(done =~= text_lines(s@));
    }
    out
}

/// A `String` holding the given characters, in order; the body collects them
/// through std's `FromIterator<&char>` for `String`. Trusted: the contract says
/// that the string's characters are exactly `chars`.
#[verifier::external_body]
fn string_from_chars(chars: &Vec<char>) -> (r: String)
    ensures
        r@ == chars@,
{
    chars.iter().collect()
}

/// Rewrites the manifest's `"artifact"` and `"format"` entries so that the
/// published manifest points at the archive `archive_name` (a `tar.gz`).
pub fn rewrite_manifest(manifest: &str, archive_name: &str) -> (r: String)
    ensures
        r@ == rewritten_manifest(manifest@, archive_name@),
{
    let text = chars_of(manifest);
    let name = chars_of(archive_name);
    let out = rewrite_chars(&text, name);
    string_from_chars(&out)
}

/// Each line followed by its own `\n`.
pub open spec fn terminated_lines(ls: Seq<Seq<char>>) -> Seq<char>
    decreases ls.len(),
{
    if ls.len() == 0 {
        seq![]
    } else {
        ls[0] + seq!['\n'] + terminated_lines(ls.drop_first())
    }
}

/// A line that the line splitting gives back unchanged: no `\n` in it and no
/// `\r` at its end.
pub open spec fn is_plain_line(line: Seq<char>) -> bool {
    &&& !line.contains('\n')
    &&& !(line.len() > 0 && line.last() == '\r')
}

proof fn lemma_terminated_push(ls: Seq<Seq<char>>, line: Seq<char>)
    ensures
        terminated_lines(ls.push(line)) == terminated_lines(ls) + line + seq!['\n'],
    decreases ls.len(),
{
    if ls.len() == 0 {
        assert(ls.push(line).drop_first() =~= ls);
        assert(terminated_lines(ls.push(line)) =~= line + seq!['\n']);
    } else {
        assert(ls.push(line).drop_first() =~= ls.drop_first().push(line));
        lemma_terminated_push(ls.drop_first(), line);
        assert(terminated_lines(ls.push(line)) =~= ls[0] + seq!['\n'] + (terminated_lines(
            ls.drop_first(),
        ) + line + seq!['\n']));
    }
}

/// Joining and then ending with `\n` is terminating every line.
proof fn lemma_join_is_terminated(ls: Seq<Seq<char>>)
    requires
        ls.len() > 0,
    ensures
        join_lines(ls) + seq!['\n'] == terminated_lines(ls),
    decreases ls.len(),
{
    if ls.len() == 1 {
        assert(ls.drop_first() =~= Seq::<Seq<char>>::empty());
        assert(terminated_lines(ls.drop_first()) == Seq::<char>::empty());
        assert(terminated_lines(ls) =~= ls[0] + seq!['\n']);
    } else {
        let init = ls.drop_last();
        lemma_join_is_terminated(init);
        lemma_terminated_push(init, ls.last());
        assert(init.push(ls.last()) =~= ls);
        assert(join_lines(ls) + seq!['\n'] =~= (join_lines(init) + seq!['\n']) + ls.last()
            + seq!['\n']);
    }
}

/// The line splitting only looks at what lies from `start` on.
proof fn lemma_lines_scan_shift(x: Seq<char>, y: Seq<char>, a: int, b: int)
    requires
        0 <= a <= b <= y.len(),
    ensures
        lines_scan(x + y, x.len() + a, x.len() + b) == lines_scan(y, a, b),
    decreases y.len() - b,
{
    let t = x + y;
    if b < y.len() {
        assert(t[x.len() + b] == y[b]);
        if y[b] == '\n' {
            lemma_lines_scan_shift(x, y, b + 1, b + 1);
            assert(t.subrange(x.len() + a, x.len() + b) =~= y.subrange(a, b));
        } else {
            lemma_lines_scan_shift(x, y, a, b + 1);
        }
    } else {
        assert(t.subrange(x.len() + a, t.len() as int) =~= y.subrange(a, y.len() as int));
    }
}

/// Scanning through a line without `\n` up to its terminating `\n`.
proof fn lemma_lines_scan_line(line: Seq<char>, rest: Seq<char>, i: int)
    requires
        0 <= i <= line.len(),
        !line.contains('\n'),
    ensures
        lines_scan(line + seq!['\n'] + rest, 0, i) == seq![strip_cr(line)] + lines_scan(
            line + seq!['\n'] + rest,
            line.len() + 1 as int,
            line.len() + 1 as int,
        ),
    decreases line.len() - i,
{
    let t = line + seq!['\n'] + rest;
    if i < line.len() {
        assert(t[i] == line[i]);
        assert(line[i] != '\n');
        lemma_lines_scan_line(line, rest, i + 1);
    } else {
        assert(t[i] == '\n');
        assert(t.subrange(0, i) =~= line);
    }
}

/// Splitting terminated plain lines gives the lines back: the line splitting
/// undoes writing each line followed by `\n`.
pub proof fn lemma_lines_of_terminated(ls: Seq<Seq<char>>)
    requires
        forall|k: int| 0 <= k < ls.len() ==> is_plain_line(#[trigger] ls[k]),
    ensures
        text_lines(terminated_lines(ls)) == ls,
    decreases ls.len(),
{
    if ls.len() > 0 {
        let line = ls[0];
        let rest = terminated_lines(ls.drop_first());
        lemma_lines_scan_line(line, rest, 0);
        lemma_lines_scan_shift(line + seq!['\n'], rest, 0, 0);
        assert forall|k: int| 0 <= k < ls.drop_first().len() implies is_plain_line(
            #[trigger] ls.drop_first()[k],
        ) by {
            assert(ls.drop_first()[k] == ls[k + 1]);
        }
        lemma_lines_of_terminated(ls.drop_first());
        assert(strip_cr(line) == line);
        assert(ls =~= seq![line] + ls.drop_first());
    }
}

/// Rewriting a line twice is rewriting it once.
proof fn lemma_rewrite_line_idempotent(line: Seq<char>, archive_name: Seq<char>)
    ensures
        rewrite_line(rewrite_line(line, archive_name), archive_name) == rewrite_line(
            line,
            archive_name,
        ),
{
    let t = trim_start(line);
    if artifact_key().is_prefix_of(t) {
        let r = artifact_entry_head() + archive_name + artifact_entry_tail();
        assert(r.drop_first().drop_first() =~= r.subrange(2, r.len() as int));
        assert(r.drop_first()[0] == ' ');
        assert(r.drop_first().drop_first()[0] == '"');
        assert(trim_start(r.drop_first().drop_first()) == r.drop_first().drop_first());
        assert(is_white_space(r[0]));
        assert(is_white_space(r.drop_first()[0]));
        assert(trim_start(r.drop_first()) == trim_start(r.drop_first().drop_first()));
        assert(trim_start(r) == trim_start(r.drop_first()));
        assert(trim_start(r) == r.subrange(2, r.len() as int));
        assert(artifact_key() =~= r.subrange(2, r.len() as int).subrange(0, 10));
    } else if format_key().is_prefix_of(t) {
        let r = format_entry();
        assert(r.drop_first().drop_first() =~= r.subrange(2, r.len() as int));
        assert(r[0] == ' ');
        assert(r.drop_first()[0] == ' ');
        assert(r.drop_first().drop_first()[0] == '"');
        assert(trim_start(r.drop_first().drop_first()) == r.drop_first().drop_first());
        assert(is_white_space(r[0]));
        assert(is_white_space(r.drop_first()[0]));
        assert(trim_start(r.drop_first()) == trim_start(r.drop_first().drop_first()));
        assert(trim_start(r) == trim_start(r.drop_first()));
        assert(trim_start(r) == r.subrange(2, r.len() as int));
        assert(!artifact_key().is_prefix_of(trim_start(r)));
        assert(format_key() =~= r.subrange(2, r.len() as int).subrange(0, 8));
    }
}

/// Rewriting an already rewritten manifest changes nothing, provided every
/// rewritten line is again a single line: it holds no `\n` (an archive name
/// with a `\n` would split the artifact line) and does not end with `\r`
/// (which the splitting would take as part of a line ending).
pub proof fn lemma_rewrite_manifest_idempotent(manifest: Seq<char>, archive_name: Seq<char>)
    requires
        forall|k: int|
            0 <= k < text_lines(manifest).len() ==> is_plain_line(
                rewrite_line(#[trigger] text_lines(manifest)[k], archive_name),
            ),
    ensures
        rewritten_manifest(rewritten_manifest(manifest, archive_name), archive_name)
            == rewritten_manifest(manifest, archive_name),
{
    let f = |l: Seq<char>| rewrite_line(l, archive_name);
    let lines = text_lines(manifest);
    let once = lines.map_values(f);
    let out = rewritten_manifest(manifest, archive_name);
    if once.len() == 0 {
        assert(out =~= seq!['\n']);
        assert(out[0] == '\n');
        assert(out.subrange(0, 0) =~= Seq::<char>::empty());
        assert(strip_cr(Seq::<char>::empty()) == Seq::<char>::empty());
        assert(lines_scan(out, 1, 1) == Seq::<Seq<char>>::empty());
        assert(text_lines(out) =~= seq![Seq::<char>::empty()]);
        assert(trim_start(Seq::<char>::empty()) == Seq::<char>::empty());
        assert(text_lines(out).map_values(f) =~= seq![Seq::<char>::empty()]);
    } else {
        lemma_join_is_terminated(once);
        assert forall|k: int| 0 <= k < once.len() implies is_plain_line(#[trigger] once[k]) by {
            assert(once[k] == rewrite_line(lines[k], archive_name));
        }
        lemma_lines_of_terminated(once);
        assert forall|k: int| 0 <= k < once.len() implies #[trigger] once.map_values(f)[k]
            == once[k] by {
            lemma_rewrite_line_idempotent(lines[k], archive_name);
        }
        assert(once.map_values(f) =~= once);
    }
}

/// The keys matched and the entries written, as text.
pub proof fn lemma_manifest_texts(archive_name: Seq<char>)
    ensures
        artifact_key() == "\"artifact\""@,
        format_key() == "\"format\""@,
        artifact_entry_head() + archive_name + artifact_entry_tail() == "  \"artifact\": \""@
            + archive_name + "\","@,
        format_entry() == "  \"format\": \"tar.gz\","@,
{
    reveal_strlit("\"artifact\"");
    reveal_strlit("\"format\"");
    reveal_strlit("  \"artifact\": \"");
    reveal_strlit("\",");
    reveal_strlit("  \"format\": \"tar.gz\",");
    assert(artifact_key() =~= "\"artifact\""@);
    assert(format_key() =~= "\"format\""@);
    assert(artifact_entry_head() =~= "  \"artifact\": \""@);
    assert(artifact_entry_tail() =~= "\","@);
    assert(format_entry() =~= "  \"format\": \"tar.gz\","@);
}

/// White space is what `char::is_whitespace` accepts: among the ASCII
/// characters exactly tab, line feed, vertical tab, form feed, carriage return
/// and space.
pub proof fn lemma_ascii_white_space(c: char)
    requires
        (c as u32) < 0x80,
    ensures
        is_white_space(c) <==> (c == '\t' || c == '\n' || c == '\u{0b}' || c == '\u{0c}'
            || c == '\r' || c == ' '),
{
}

/// The rewritten manifest has one line per line of the manifest (at least one),
/// each the rewrite of its line, provided each rewritten line is again a
/// single line.
pub proof fn lemma_rewritten_lines(manifest: Seq<char>, archive_name: Seq<char>)
    requires
        text_lines(manifest).len() > 0,
        forall|k: int|
            0 <= k < text_lines(manifest).len() ==> is_plain_line(
                rewrite_line(#[trigger] text_lines(manifest)[k], archive_name),
            ),
    ensures
        text_lines(rewritten_manifest(manifest, archive_name)).len() == text_lines(
            manifest,
        ).len(),
        forall|k: int|
            0 <= k < text_lines(manifest).len() ==> #[trigger] text_lines(
                rewritten_manifest(manifest, archive_name),
            )[k] == rewrite_line(text_lines(manifest)[k], archive_name),
{
    let lines = text_lines(manifest);
    let once = lines.map_values(|l: Seq<char>| rewrite_line(l, archive_name));
    lemma_join_is_terminated(once);
    assert forall|k: int| 0 <= k < once.len() implies is_plain_line(#[trigger] once[k]) by {
        assert(once[k] == rewrite_line(lines[k], archive_name));
    }
    lemma_lines_of_terminated(once);
}

/// A line ends at the first `\n`; a `\r` just before that `\n` belongs to the
/// line ending, any other character stays in the line; the rest of the text
/// is split on its own.
pub proof fn lemma_lines_first_line(line: Seq<char>, rest: Seq<char>)
    requires
        !line.contains('\n'),
    ensures
        text_lines(line + seq!['\r', '\n'] + rest) == seq![line] + text_lines(rest),
        !(line.len() > 0 && line.last() == '\r') ==> text_lines(line + seq!['\n'] + rest)
            == seq![line] + text_lines(rest),
{
    let cr_line = line.push('\r');
    assert(!cr_line.contains('\n')) by {
        if cr_line.contains('\n') {
            let k = choose|k: int| 0 <= k < cr_line.len() && cr_line[k] == '\n';
            assert(line[k] == '\n');
        }
    }
    assert(line + seq!['\r', '\n'] + rest =~= cr_line + seq!['\n'] + rest);
    lemma_lines_scan_line(cr_line, rest, 0);
    lemma_lines_scan_shift(cr_line + seq!['\n'], rest, 0, 0);
    assert(cr_line.drop_last() =~= line);
    lemma_lines_scan_line(line, rest, 0);
    lemma_lines_scan_shift(line + seq!['\n'], rest, 0, 0);
}

/// A text without `\n` is one line (none if it is empty): a final line
/// ending is optional and a lone `\r` at the end stays in the line.
pub proof fn lemma_lines_without_newline(s: Seq<char>)
    requires
        !s.contains('\n'),
    ensures
        s.len() > 0 ==> text_lines(s) == seq![s],
        s.len() == 0 ==> text_lines(s) == Seq::<Seq<char>>::empty(),
{
    lemma_lines_scan_no_newline(s, 0);
    assert(s.subrange(0, s.len() as int) =~= s);
}

proof fn lemma_lines_scan_no_newline(s: Seq<char>, i: int)
    requires
        !s.contains('\n'),
        0 <= i <= s.len(),
    ensures
        lines_scan(s, 0, i) == lines_scan(s, 0, s.len() as int),
    decreases s.len() - i,
{
    if i < s.len() {
        assert(s[i] != '\n');
        lemma_lines_scan_no_newline(s, i + 1);
    }
}

/// No line holds a `\n`.
pub proof fn lemma_lines_hold_no_newline(s: Seq<char>)
    ensures
        forall|k: int|
            0 <= k < text_lines(s).len() ==> !(#[trigger] text_lines(s)[k]).contains('\n'),
{
    lemma_lines_scan_no_newline_inside(s, 0, 0);
}

proof fn lemma_lines_scan_no_newline_inside(s: Seq<char>, start: int, i: int)
    requires
        0 <= start <= i <= s.len(),
        forall|j: int| start <= j < i ==> s[j] != '\n',
    ensures
        forall|k: int|
            0 <= k < lines_scan(s, start, i).len() ==> !(#[trigger] lines_scan(
                s,
                start,
                i,
            )[k]).contains('\n'),
    decreases s.len() - i,
{
    if i >= s.len() {
        if start < s.len() {
            let l = s.subrange(start, s.len() as int);
            assert(!l.contains('\n')) by {
                if l.contains('\n') {
                    let k = choose|k: int| 0 <= k < l.len() && l[k] == '\n';
                    assert(s[start + k] == '\n');
                }
            }
            assert(lines_scan(s, start, i) =~= seq![l]);
            assert(lines_scan(s, start, i)[0] == l);
        } else {
            assert(lines_scan(s, start, i) =~= Seq::<Seq<char>>::empty());
        }
    } else if s[i] == '\n' {
        lemma_lines_scan_no_newline_inside(s, i + 1, i + 1);
        let l = s.subrange(start, i);
        let sl = strip_cr(l);
        assert(!sl.contains('\n')) by {
            if sl.contains('\n') {
                let k = choose|k: int| 0 <= k < sl.len() && sl[k] == '\n';
                assert(l[k] == '\n');
                assert(s[start + k] == '\n');
            }
        }
        let rest = lines_scan(s, i + 1, i + 1);
        assert forall|k: int| 0 <= k < lines_scan(s, start, i).len() implies !(
        #[trigger] lines_scan(s, start, i)[k]).contains('\n') by {
            if k > 0 {
                assert(lines_scan(s, start, i)[k] == rest[k - 1]);
            }
        }
    } else {
        lemma_lines_scan_no_newline_inside(s, start, i + 1);
        assert(lines_scan(s, start, i) == lines_scan(s, start, i + 1));
    }
}

} // verus!
