//! Secrets: redaction for display, the `.env` rewrite, and the check on
//! the `.env` file's permission bits.
use vstd::prelude::*;

use crate::error::KnightError;
use crate::platform::Platform;
use crate::text::{
    append_chars, append_str, chars_of, occurs_at, split_chars, split_on, starts_with_chars,
    string_from_chars, views,
};

verus! {

/// `n` copies of the bullet character.
pub open spec fn bullets(n: nat) -> Seq<char> {
    Seq::new(n, |i: int| '•')
}

/// What `redact` shows for a secret: bullets only for short secrets (by
/// UTF-8 length), otherwise the first four and last two characters around
/// eight bullets.
pub open spec fn redacted(s: &str) -> Seq<char> {
    let len = s.len() as nat;
    if len <= 6 {
        bullets(if len >= 4 {
            len
        } else {
            4
        })
    } else {
        let n = s@.len();
        s@.take(if n >= 4 {
            4
        } else {
            n as int
        }) + bullets(8) + s@.skip(if n >= 2 {
            n - 2
        } else {
            0
        })
    }
}

fn push_bullets(out: &mut Vec<char>, n: usize)
    ensures
        final(out)@ == old(out)@ + bullets(n as nat),
{
    let mut i: usize = 0;
    while i < n
        invariant
            i <= n,
            out@ == old(out)@ + bullets(i as nat),
        decreases n - i,
    {
        out.push('•');
        assert(bullets((i + 1) as nat) =~= bullets(i as nat).push('•'));
        i = i + 1;
    }
}

/// Masks a secret for display, e.g. `gsk_1234567890abcdef42` becomes
/// `gsk_••••••••42`.
pub fn redact(secret: &str) -> (r: String)
    ensures
        r@ == redacted(secret),
{
    let len = secret.len();
    let mut out: Vec<char> = Vec::new();
    if len <= 6 {
        let count = if len >= 4 {
            len
        } else {
            4
        };
        push_bullets(&mut out, count);
        assert(out@ =~= redacted(secret));
        return string_from_chars(out);
    }
    let chars = chars_of(secret);
    let n = chars.len();
    let head = if n >= 4 {
        4
    } else {
        n
    };
    let mut i: usize = 0;
    while i < head
        invariant
            head <= n,
            n == chars@.len(),
            i <= head,
            out@ == chars@.take(i as int),
        decreases head - i,
    {
        out.push(chars[i]);
        assert(chars@.take(i + 1) =~= chars@.take(i as int).push(chars@[i as int]));
        i = i + 1;
    }
    push_bullets(&mut out, 8);
    let tail_start = if n >= 2 {
        n - 2
    } else {
        0
    };
    let ghost before = out@;
    let mut k: usize = tail_start;
    while k < n
        invariant
            tail_start <= k <= n,
            n == chars@.len(),
            out@ == before + chars@.subrange(tail_start as int, k as int),
        decreases n - k,
    {
        out.push(chars[k]);
        assert(chars@.subrange(tail_start as int, k + 1) =~= chars@.subrange(
            tail_start as int,
            k as int,
        ).push(chars@[k as int]));
        k = k + 1;
    }
    assert(out@ =~= redacted(secret));
    string_from_chars(out)
}

/// `s` without one trailing carriage return.
pub open spec fn strip_cr(s: Seq<char>) -> Seq<char> {
    if s.len() > 0 && s.last() == '\r' {
        s.drop_last()
    } else {
        s
    }
}

/// The lines of a text (what `str::lines` yields): split at `\n`, a `\r`
/// before a `\n` removed, no final empty line.
pub open spec fn text_lines(s: Seq<char>) -> Seq<Seq<char>> {
    let pieces = split_on(s, '\n');
    let ended = pieces.drop_last().map_values(|p: Seq<char>| strip_cr(p));
    if pieces.last().len() == 0 {
        ended
    } else {
        ended.push(pieces.last())
    }
}

/// Every line followed by `\n`, lines starting with `prefix` replaced by
/// `entry`.
pub open spec fn rewrite_lines(lines: Seq<Seq<char>>, prefix: Seq<char>, entry: Seq<char>) -> Seq<
    char,
>
    decreases lines.len(),
{
    if lines.len() == 0 {
        Seq::empty()
    } else {
        rewrite_lines(lines.drop_last(), prefix, entry) + (if occurs_at(lines.last(), prefix, 0) {
            entry
        } else {
            lines.last()
        }) + seq!['\n']
    }
}

/// Whether some line starts with `prefix`.
pub open spec fn any_line_starts_with(lines: Seq<Seq<char>>, prefix: Seq<char>) -> bool {
    exists|i: int| 0 <= i < lines.len() && occurs_at(#[trigger] lines[i], prefix, 0)
}

/// The `.env` text after setting `var` to `value`: every `var=` line is
/// replaced by `var=value`; when there is none, the assignment is appended.
pub open spec fn env_updated(existing: Seq<char>, var: Seq<char>, value: Seq<char>) -> Seq<char> {
    let lines = text_lines(existing);
    let prefix = var + seq!['='];
    let entry = var + seq!['='] + value;
    let body = rewrite_lines(lines, prefix, entry);
    if any_line_starts_with(lines, prefix) {
        body
    } else if body.len() > 0 && body.last() != '\n' {
        body + seq!['\n'] + entry + seq!['\n']
    } else {
        body + entry + seq!['\n']
    }
}

/// The lines of a text.
pub fn lines_of(s: &[char]) -> (r: Vec<Vec<char>>)
    ensures
        views(r@) == text_lines(s@),
{
    let pieces = split_chars(s, '\n');
    proof {
        crate::text::lemma_split_nonempty(s@, '\n');
    }
    let count = pieces.len();
    let mut out: Vec<Vec<char>> = Vec::new();
    let mut i: usize = 0;
    while i + 1 < count
        invariant
            count == pieces.len(),
            count >= 1,
            i < count,
            views(pieces@) == split_on(s@, '\n'),
            views(out@) == views(pieces@).drop_last().take(i as int).map_values(
                |p: Seq<char>| strip_cr(p),
            ),
        decreases count - i,
    {
        let p = &pieces[i];
        let mut line: Vec<char> = Vec::new();
        let plen = p.len();
        let keep = if plen > 0 && p[plen - 1] == '\r' {
            plen - 1
        } else {
            plen
        };
        let mut k: usize = 0;
        while k < keep
            invariant
                keep <= plen,
                plen == p@.len(),
                k <= keep,
                line@ == p@.take(k as int),
            decreases keep - k,
        {
            line.push(p[k]);
            assert(p@.take(k + 1) =~= p@.take(k as int).push(p@[k as int]));
            k = k + 1;
        }
        assert(line@ =~= strip_cr(p@));
        let ghost before = out@;
        out.push(line);
        assert(views(pieces@)[i as int] == p@);
        let ghost dl = views(pieces@).drop_last();
        assert(dl[i as int] == p@);
        assert(views(out@) =~= views(before).push(line@));
        assert(dl.take(i + 1).map_values(|q: Seq<char>| strip_cr(q)) =~= dl.take(i as int).map_values(
            |q: Seq<char>| strip_cr(q),
        ).push(strip_cr(p@)));
        i = i + 1;
    }
    assert(views(pieces@).drop_last().take(i as int) =~= views(pieces@).drop_last());
    let last = &pieces[count - 1];
    assert(views(pieces@).last() == last@);
    if last.len() > 0 {
        let copy = last.clone();
        out.push(copy);
        assert(views(out@) =~= text_lines(s@));
    } else {
        assert(views(out@) =~= text_lines(s@));
    }
    out
}

/// The new `.env` text after setting `var` to `value` in `existing`.
pub fn env_file_with(existing: &str, var: &str, value: &str) -> (r: String)
    ensures
        r@ == env_updated(existing@, var@, value@),
{
    let text = chars_of(existing);
    let lines = lines_of(text.as_slice());
    let mut prefix = chars_of(var);
    prefix.push('=');
    let mut entry = prefix.clone();
    append_str(&mut entry, value);
    let ghost lv = views(lines@);
    let mut updated: Vec<char> = Vec::new();
    let mut replaced = false;
    let mut i: usize = 0;
    while i < lines.len()
        invariant
            i <= lines.len(),
            lv == views(lines@),
            lv == text_lines(existing@),
            prefix@ == var@ + seq!['='],
            entry@ == var@ + seq!['='] + value@,
            updated@ == rewrite_lines(lv.take(i as int), prefix@, entry@),
            replaced == any_line_starts_with(lv.take(i as int), prefix@),
        decreases lines.len() - i,
    {
        let ghost t = lv.take(i + 1);
        assert(t.drop_last() =~= lv.take(i as int));
        assert(t.last() == lines@[i as int]@);
        if starts_with_chars(lines[i].as_slice(), prefix.as_slice()) {
            append_chars(&mut updated, entry.as_slice());
            replaced = true;
            assert(occurs_at(t[i as int], prefix@, 0));
        } else {
            append_chars(&mut updated, lines[i].as_slice());
            assert forall|j: int| 0 <= j < t.len() && occurs_at(#[trigger] t[j], prefix@, 0) implies j
                < i by {
                if j == i {
                    assert(t[j] == lines@[i as int]@);
                }
            }
            assert(any_line_starts_with(t, prefix@) == any_line_starts_with(
                lv.take(i as int),
                prefix@,
            )) by {
                if any_line_starts_with(lv.take(i as int), prefix@) {
                    let j = choose|j: int|
                        0 <= j < i && occurs_at(#[trigger] lv.take(i as int)[j], prefix@, 0);
                    assert(t[j] == lv.take(i as int)[j]);
                }
                if any_line_starts_with(t, prefix@) {
                    let j = choose|j: int| 0 <= j < t.len() && occurs_at(#[trigger] t[j], prefix@, 0);
                    assert(lv.take(i as int)[j] == t[j]);
                }
            }
        }
        updated.push('\n');
        i = i + 1;
    }
    assert(lv.take(lines.len() as int) =~= lv);
    if !replaced {
        let n = updated.len();
        if n > 0 && updated[n - 1] != '\n' {
            updated.push('\n');
        }
        append_chars(&mut updated, entry.as_slice());
        updated.push('\n');
    }
    assert(updated@ =~= env_updated(existing@, var@, value@));
    string_from_chars(updated)
}

/// Octal digits of `n`, most significant first.
pub open spec fn octal(n: nat) -> Seq<char>
    decreases n,
{
    if n < 8 {
        seq![(('0' as u32) + n) as char]
    } else {
        octal(n / 8) + seq![(('0' as u32) + (n % 8)) as char]
    }
}

fn octal_digits(n: u32) -> (r: Vec<char>)
    ensures
        r@ == octal(n as nat),
    decreases n,
{
    let d: u8 = (n % 8) as u8;
    let c: char = (48u8 + d) as char;
    if n < 8 {
        let mut v: Vec<char> = Vec::new();
        v.push(c);
        v
    } else {
        let mut v = octal_digits(n / 8);
        v.push(c);
        v
    }
}

/// The error for an `.env` file whose mode lets group or others in.
pub open spec fn env_mode_error(mode: u32, path: Seq<char>) -> Seq<char> {
    ".env file mode "@ + octal((mode & 0o777u32) as nat) + " is world/group-readable; chmod 600 "@
        + path
}

/// Refuses an `.env` file whose permission bits grant group or others any
/// access. Only Unix-like systems have such bits.
pub fn check_permissions(platform: Platform, mode: u32, path: &str) -> (r: Result<
    (),
    KnightError,
>)
    ensures
        r is Ok <==> (!platform.is_unix() || (mode & 0o777u32) & 0o077u32 == 0),
        r is Err ==> (r->Err_0 matches KnightError::Permission(m) && m@ == env_mode_error(
            mode,
            path@,
        )),
{
    if !platform.is_unix() {
        return Ok(());
    }
    let masked: u32 = mode & 0o777u32;
    if masked & 0o077u32 != 0 {
        let mut m = chars_of(".env file mode ");
        let digits = octal_digits(masked);
        append_chars(&mut m, digits.as_slice());
        append_str(&mut m, " is world/group-readable; chmod 600 ");
        append_str(&mut m, path);
        return Err(KnightError::Permission(string_from_chars(m)));
    }
    Ok(())
}


/// A line of the rewritten file: `entry` in place of a line starting with
/// `prefix`.
pub open spec fn replace_line(l: Seq<char>, prefix: Seq<char>, entry: Seq<char>) -> Seq<char> {
    if occurs_at(l, prefix, 0) {
        entry
    } else {
        l
    }
}

/// Every line followed by a newline.
pub open spec fn nl_join(ls: Seq<Seq<char>>) -> Seq<char>
    decreases ls.len(),
{
    if ls.len() == 0 {
        Seq::empty()
    } else {
        nl_join(ls.drop_last()) + ls.last() + seq!['\n']
    }
}

pub open spec fn has_newline(s: Seq<char>) -> bool {
    s.contains('\n')
}

pub open spec fn ends_with_cr(s: Seq<char>) -> bool {
    s.len() > 0 && s.last() == '\r'
}

proof fn lemma_rewrite_is_join(ls: Seq<Seq<char>>, p: Seq<char>, e: Seq<char>)
    ensures
        rewrite_lines(ls, p, e) == nl_join(ls.map_values(|l: Seq<char>| replace_line(l, p, e))),
    decreases ls.len(),
{
    if ls.len() > 0 {
        lemma_rewrite_is_join(ls.drop_last(), p, e);
        assert(ls.map_values(|l: Seq<char>| replace_line(l, p, e)).drop_last() =~= ls.drop_last().map_values(
            |l: Seq<char>| replace_line(l, p, e),
        ));
    }
}

/// Appending characters other than the separator extends the last piece.
proof fn lemma_split_extend(a: Seq<char>, b: Seq<char>, sep: char)
    requires
        !b.contains(sep),
    ensures
        split_on(a + b, sep) == split_on(a, sep).update(
            split_on(a, sep).len() - 1,
            split_on(a, sep).last() + b,
        ),
    decreases b.len(),
{
    crate::text::lemma_split_nonempty(a, sep);
    if b.len() == 0 {
        assert(a + b =~= a);
        assert(split_on(a, sep).last() + b =~= split_on(a, sep).last());
        assert(split_on(a, sep).update(split_on(a, sep).len() - 1, split_on(a, sep).last())
            =~= split_on(a, sep));
    } else {
        let b1 = b.drop_last();
        assert(!b1.contains(sep)) by {
            if b1.contains(sep) {
                let k = choose|k: int| 0 <= k < b1.len() && b1[k] == sep;
                assert(b[k] == sep);
            }
        }
        lemma_split_extend(a, b1, sep);
        assert((a + b).drop_last() =~= a + b1);
        assert((a + b).last() == b.last());
        assert(b.last() != sep) by {
            assert(b[b.len() - 1] == b.last());
        }
        assert(split_on(a, sep).last() + b =~= (split_on(a, sep).last() + b1).push(b.last()));
        assert(split_on(a + b, sep) =~= split_on(a, sep).update(
            split_on(a, sep).len() - 1,
            split_on(a, sep).last() + b,
        ));
    }
}

/// Lines without newlines, each followed by a newline, split back into
/// the same lines and a final empty piece.
proof fn lemma_split_nl_join(ms: Seq<Seq<char>>)
    requires
        forall|i: int| 0 <= i < ms.len() ==> !(#[trigger] ms[i]).contains('\n'),
    ensures
        split_on(nl_join(ms), '\n') == ms.push(Seq::<char>::empty()),
    decreases ms.len(),
{
    if ms.len() == 0 {
        assert(split_on(Seq::<char>::empty(), '\n') =~= seq![Seq::<char>::empty()]);
        assert(nl_join(ms) =~= Seq::<char>::empty());
    } else {
        let prev = ms.drop_last();
        assert forall|i: int| 0 <= i < prev.len() implies !(#[trigger] prev[i]).contains('\n') by {
            assert(prev[i] == ms[i]);
        }
        lemma_split_nl_join(prev);
        let x = nl_join(prev);
        let m = ms.last();
        assert(!m.contains('\n')) by {
            assert(ms[ms.len() - 1] == m);
        }
        lemma_split_extend(x, m, '\n');
        let xm = x + m;
        assert(nl_join(ms) =~= xm.push('\n'));
        assert(xm.push('\n').drop_last() =~= xm);
        assert(split_on(xm, '\n') =~= prev.push(m));
        assert(ms =~= prev.push(m));
    }
}

/// The lines of a text made of newline-terminated lines are those lines,
/// each without a carriage return before its newline.
proof fn lemma_lines_of_nl_join(ms: Seq<Seq<char>>)
    requires
        forall|i: int| 0 <= i < ms.len() ==> !(#[trigger] ms[i]).contains('\n'),
    ensures
        text_lines(nl_join(ms)) == ms.map_values(|p: Seq<char>| strip_cr(p)),
{
    lemma_split_nl_join(ms);
    let pieces = split_on(nl_join(ms), '\n');
    assert(pieces.drop_last() =~= ms);
    assert(pieces.last() =~= Seq::<char>::empty());
}

/// No line of a text holds a newline.
proof fn lemma_text_lines_no_newline(s: Seq<char>)
    ensures
        forall|i: int| 0 <= i < text_lines(s).len() ==> !(#[trigger] text_lines(s)[i]).contains('\n'),
{
    lemma_split_pieces_no_sep(s, '\n');
    crate::text::lemma_split_nonempty(s, '\n');
    let pieces = split_on(s, '\n');
    assert forall|i: int| 0 <= i < text_lines(s).len() implies !(#[trigger] text_lines(s)[i]).contains(
        '\n',
    ) by {
        if i < pieces.len() - 1 {
            let p = pieces[i];
            assert(text_lines(s)[i] == strip_cr(p));
            if strip_cr(p).contains('\n') {
                let k = choose|k: int| 0 <= k < strip_cr(p).len() && strip_cr(p)[k] == '\n';
                assert(p[k] == '\n');
                assert(p.contains('\n'));
            }
        } else {
            assert(pieces.last().len() > 0);
            assert(text_lines(s)[i] == pieces.last());
            assert(pieces[pieces.len() - 1] == pieces.last());
        }
    }
}

proof fn lemma_split_pieces_no_sep(s: Seq<char>, sep: char)
    ensures
        forall|i: int| 0 <= i < split_on(s, sep).len() ==> !(#[trigger] split_on(s, sep)[i]).contains(sep),
    decreases s.len(),
{
    crate::text::lemma_split_nonempty(s, sep);
    if s.len() > 0 {
        lemma_split_pieces_no_sep(s.drop_last(), sep);
        crate::text::lemma_split_nonempty(s.drop_last(), sep);
        let prev = split_on(s.drop_last(), sep);
        assert forall|i: int| 0 <= i < split_on(s, sep).len() implies !(#[trigger] split_on(
            s,
            sep,
        )[i]).contains(sep) by {
            if s.last() != sep && i == prev.len() - 1 {
                let q = prev.last().push(s.last());
                assert(split_on(s, sep)[i] == q);
                if q.contains(sep) {
                    let k = choose|k: int| 0 <= k < q.len() && q[k] == sep;
                    if k < q.len() - 1 {
                        assert(prev.last()[k] == sep);
                        assert(prev[prev.len() - 1].contains(sep));
                    }
                }
            } else if i < prev.len() {
                assert(split_on(s, sep)[i] == prev[i]);
            } else {
                assert(split_on(s, sep)[i] =~= Seq::<char>::empty());
            }
        }
    }
}

/// Reading the `.env` text back after setting `var` to `value`: when a
/// `var=` line existed, every such line now reads `var=value` and the
/// other lines are kept in order; otherwise all lines are kept and
/// `var=value` is added as the last line. (A carriage return before a
/// newline is dropped from every kept line.)
pub proof fn lemma_env_update_lines(existing: Seq<char>, var: Seq<char>, value: Seq<char>)
    requires
        !var.contains('\n'),
        !value.contains('\n'),
    ensures
        ({
            let ls = text_lines(existing);
            let prefix = var + seq!['='];
            let entry = var + seq!['='] + value;
            text_lines(env_updated(existing, var, value)) == if any_line_starts_with(ls, prefix) {
                ls.map_values(|l: Seq<char>| strip_cr(replace_line(l, prefix, entry)))
            } else {
                ls.map_values(|l: Seq<char>| strip_cr(l)).push(strip_cr(entry))
            }
        }),
{
    let ls = text_lines(existing);
    let prefix = var + seq!['='];
    let entry = var + seq!['='] + value;
    assert(!entry.contains('\n')) by {
        if entry.contains('\n') {
            let k = choose|k: int| 0 <= k < entry.len() && entry[k] == '\n';
            if k < var.len() {
                assert(var[k] == '\n');
            } else if k > var.len() {
                assert(value[k - var.len() - 1] == '\n');
            }
        }
    }
    lemma_text_lines_no_newline(existing);
    let mapped = ls.map_values(|l: Seq<char>| replace_line(l, prefix, entry));
    assert forall|i: int| 0 <= i < mapped.len() implies !(#[trigger] mapped[i]).contains('\n') by {
        assert(mapped[i] == replace_line(ls[i], prefix, entry));
    }
    lemma_rewrite_is_join(ls, prefix, entry);
    lemma_lines_of_nl_join(mapped);
    let body = rewrite_lines(ls, prefix, entry);
    if any_line_starts_with(ls, prefix) {
        assert(mapped.map_values(|p: Seq<char>| strip_cr(p)) =~= ls.map_values(
            |l: Seq<char>| strip_cr(replace_line(l, prefix, entry)),
        ));
    } else {
        assert(mapped =~= ls) by {
            assert forall|i: int| 0 <= i < ls.len() implies mapped[i] == ls[i] by {
                assert(!occurs_at(ls[i], prefix, 0));
            }
        }
        let all = ls.push(entry);
        assert forall|i: int| 0 <= i < all.len() implies !(#[trigger] all[i]).contains('\n') by {
            if i < ls.len() {
                assert(all[i] == ls[i]);
            }
        }
        lemma_lines_of_nl_join(all);
        assert(all.drop_last() =~= ls);
        assert(body == nl_join(ls));
        assert(nl_join(all) =~= body + entry + seq!['\n']);
        if body.len() > 0 {
            assert(body.last() == '\n');
        }
        assert(env_updated(existing, var, value) =~= nl_join(all));
        assert(all.map_values(|p: Seq<char>| strip_cr(p)) =~= ls.map_values(|l: Seq<char>| strip_cr(l)).push(
            strip_cr(entry),
        ));
    }
}


/// Setting the same variable to the same value twice gives the text of
/// setting it once, for files whose lines do not end in a carriage return.
pub proof fn lemma_env_update_idempotent(existing: Seq<char>, var: Seq<char>, value: Seq<char>)
    requires
        !var.contains('\n'),
        !value.contains('\n'),
        !ends_with_cr(value),
        forall|i: int|
            0 <= i < text_lines(existing).len() ==> !ends_with_cr(#[trigger] text_lines(existing)[i]),
    ensures
        env_updated(env_updated(existing, var, value), var, value) == env_updated(
            existing,
            var,
            value,
        ),
{
    let ls = text_lines(existing);
    let prefix = var + seq!['='];
    let entry = var + seq!['='] + value;
    let once = env_updated(existing, var, value);
    lemma_env_update_lines(existing, var, value);
    lemma_env_update_lines(once, var, value);
    assert(occurs_at(entry, prefix, 0)) by {
        assert(entry.subrange(0, prefix.len() as int) =~= prefix);
    }
    assert(!ends_with_cr(entry)) by {
        if value.len() > 0 {
            assert(entry.last() == value.last());
        } else {
            assert(entry.last() == '=');
        }
    }
    let l1 = text_lines(once);
    let r = |l: Seq<char>| replace_line(l, prefix, entry);
    lemma_rewrite_is_join(ls, prefix, entry);
    lemma_rewrite_is_join(l1, prefix, entry);
    if any_line_starts_with(ls, prefix) {
        let mapped = ls.map_values(r);
        assert(l1 =~= mapped) by {
            assert forall|i: int| 0 <= i < ls.len() implies l1[i] == mapped[i] by {
                assert(!ends_with_cr(ls[i]));
                assert(l1[i] == strip_cr(replace_line(ls[i], prefix, entry)));
            }
        }
        let i = choose|i: int| 0 <= i < ls.len() && occurs_at(#[trigger] ls[i], prefix, 0);
        assert(l1[i] == entry);
        assert(any_line_starts_with(l1, prefix));
        assert(l1.map_values(r) =~= mapped) by {
            assert forall|k: int| 0 <= k < ls.len() implies l1.map_values(r)[k] == mapped[k] by {
                assert(l1[k] == replace_line(ls[k], prefix, entry));
            }
        }
    } else {
        let all = ls.push(entry);
        assert(l1 =~= all) by {
            assert forall|i: int| 0 <= i < all.len() implies l1[i] == all[i] by {
                if i < ls.len() {
                    assert(!ends_with_cr(ls[i]));
                    assert(l1[i] == strip_cr(ls[i]));
                } else {
                    assert(l1[i] == strip_cr(entry));
                }
            }
        }
        assert(l1[ls.len() as int] == entry);
        assert(any_line_starts_with(l1, prefix));
        assert(l1.map_values(r) =~= all) by {
            assert forall|k: int| 0 <= k < all.len() implies l1.map_values(r)[k] == all[k] by {
                if k < ls.len() {
                    assert(!occurs_at(ls[k], prefix, 0));
                }
            }
        }
        let body = rewrite_lines(ls, prefix, entry);
        assert(ls.map_values(r) =~= ls) by {
            assert forall|k: int| 0 <= k < ls.len() implies ls.map_values(r)[k] == ls[k] by {
                assert(!occurs_at(ls[k], prefix, 0));
            }
        }
        assert(all.drop_last() =~= ls);
        assert(nl_join(all) =~= body + entry + seq!['\n']);
        if body.len() > 0 {
            assert(body.last() == '\n');
        }
    }
}

} // verus!
