//! Assembling and parsing the MIME-like text envelope: a header line, the
//! base64 body wrapped at a fixed column width, and a footer line, each
//! newline-delimited.
use vstd::prelude::*;
use vstd::string::{StrSliceExecFns, StringExecFns};
use crate::shared;

verus! {

/// `s` holds no newline character.
pub open spec fn no_newline(s: Seq<char>) -> bool {
    forall|i: int| 0 <= i < s.len() ==> s[i] != '\n'
}

/// The body text cut into lines of at most `CHUNK_SIZE` characters.
pub open spec fn chunks_of(s: Seq<char>) -> Seq<Seq<char>>
    decreases s.len(),
{
    if s.len() == 0 {
        Seq::empty()
    } else if s.len() <= shared::CHUNK_SIZE {
        seq![s]
    } else {
        seq![s.take(shared::CHUNK_SIZE as int)] + chunks_of(s.skip(shared::CHUNK_SIZE as int))
    }
}

/// The body text wrapped at `CHUNK_SIZE` characters, a newline after every
/// line (the last included); empty input yields no line at all.
pub open spec fn wrapped(s: Seq<char>) -> Seq<char>
    decreases s.len(),
{
    if s.len() == 0 {
        Seq::empty()
    } else if s.len() <= shared::CHUNK_SIZE {
        s + seq!['\n']
    } else {
        s.take(shared::CHUNK_SIZE as int) + seq!['\n'] + wrapped(s.skip(shared::CHUNK_SIZE as int))
    }
}

/// The lines of `s`, split on the newline character; one more line than
/// there are newlines, so a trailing newline yields a trailing empty line.
pub open spec fn split_lines_spec(s: Seq<char>) -> Seq<Seq<char>>
    decreases s.len(),
{
    if s.len() == 0 {
        seq![Seq::<char>::empty()]
    } else if s[0] == '\n' {
        seq![Seq::<char>::empty()] + split_lines_spec(s.drop_first())
    } else {
        let rest = split_lines_spec(s.drop_first());
        seq![seq![s[0]] + rest[0]] + rest.drop_first()
    }
}

/// The concatenation of a sequence of lines, with no separators.
pub open spec fn concat_lines(ls: Seq<Seq<char>>) -> Seq<char>
    decreases ls.len(),
{
    if ls.len() == 0 {
        Seq::empty()
    } else {
        ls[0] + concat_lines(ls.drop_first())
    }
}

/// The lines strictly between the header and the line at `fi`, concatenated.
pub open spec fn body_of(lines: Seq<Seq<char>>, fi: int) -> Seq<char> {
    if 1 <= fi <= lines.len() {
        concat_lines(lines.subrange(1, fi))
    } else {
        Seq::empty()
    }
}

/// The full envelope for a wrapped base64 body.
pub open spec fn assemble_spec(alg: Seq<char>, b64: Seq<char>) -> Seq<char> {
    shared::header_prefix_spec(alg) + seq!['\n'] + wrapped(b64) + shared::header_suffix_spec(alg)
        + seq!['\n']
}

/// What parsing an envelope yields: the concatenated base64 body, or the
/// offending line.
pub enum ParseOutcome {
    Body(Seq<char>),
    BadPrefix(Seq<char>),
    BadSuffix(Seq<char>),
}

/// Parsing, on the split lines: the first line must be the header; the
/// footer is the last line, or — tolerating one trailing blank line — the
/// one before it; the body is everything in between.
pub open spec fn parse_spec(alg: Seq<char>, text: Seq<char>) -> ParseOutcome {
    let lines = split_lines_spec(text);
    let prefix = shared::header_prefix_spec(alg);
    let suffix = shared::header_suffix_spec(alg);
    if lines.len() == 0 || lines[0] != prefix {
        ParseOutcome::BadPrefix(
            if lines.len() == 0 {
                Seq::empty()
            } else {
                lines[0]
            },
        )
    } else {
        let last = lines.len() - 1;
        if lines[last] == suffix {
            ParseOutcome::Body(body_of(lines, last))
        } else if last >= 1 && lines[last - 1] == suffix {
            ParseOutcome::Body(body_of(lines, last - 1))
        } else {
            ParseOutcome::BadSuffix(
                if last >= 1 {
                    lines[last - 1]
                } else {
                    lines[last]
                },
            )
        }
    }
}

/// How parsing an envelope fails; each variant carries the offending line.
pub enum EnvelopeError {
    InvalidPrefix(String),
    InvalidSuffix(String),
}

/// The views of a sequence of owned lines.
pub open spec fn views_of(ls: Seq<String>) -> Seq<Seq<char>> {
    ls.map_values(|l: String| l@)
}

/// Splitting always yields at least one line.
pub proof fn lemma_split_nonempty(s: Seq<char>)
    ensures
        split_lines_spec(s).len() >= 1,
    decreases s.len(),
{
    if s.len() != 0 {
        lemma_split_nonempty(s.drop_first());
    }
}

/// A newline-free line followed by a newline splits off as one line.
pub proof fn lemma_split_line(a: Seq<char>, rest: Seq<char>)
    requires
        no_newline(a),
    ensures
        split_lines_spec(a + seq!['\n'] + rest) == seq![a] + split_lines_spec(rest),
    decreases a.len(),
{
    let s = a + seq!['\n'] + rest;
    if a.len() == 0 {
        assert(s =~= seq!['\n'] + rest);
        assert(s.drop_first() =~= rest);
        assert(a =~= Seq::<char>::empty());
        assert(split_lines_spec(s) =~= seq![a] + split_lines_spec(rest));
    } else {
        assert(s[0] == a[0]);
        assert(s.drop_first() =~= a.drop_first() + seq!['\n'] + rest);
        lemma_split_line(a.drop_first(), rest);
        lemma_split_nonempty(rest);
        let tail = split_lines_spec(s.drop_first());
        assert(tail[0] == a.drop_first());
        assert(tail.drop_first() =~= split_lines_spec(rest));
        assert(seq![s[0]] + tail[0] =~= a);
        assert(split_lines_spec(s) =~= seq![a] + split_lines_spec(rest));
    }
}

/// A newline-free text is a single line.
pub proof fn lemma_split_whole(a: Seq<char>)
    requires
        no_newline(a),
    ensures
        split_lines_spec(a) == seq![a],
    decreases a.len(),
{
    if a.len() == 0 {
        assert(a =~= Seq::<char>::empty());
        assert(split_lines_spec(a) =~= seq![a]);
    } else {
        lemma_split_whole(a.drop_first());
        assert(seq![a[0]] + a.drop_first() =~= a);
        assert(split_lines_spec(a) =~= seq![a]);
    }
}

/// Splitting a wrapped body recovers exactly its chunks.
pub proof fn lemma_split_wrapped(b: Seq<char>, tail: Seq<char>)
    requires
        no_newline(b),
    ensures
        split_lines_spec(wrapped(b) + tail) == chunks_of(b) + split_lines_spec(tail),
    decreases b.len(),
{
    let w = shared::CHUNK_SIZE as int;
    if b.len() == 0 {
        assert(wrapped(b) + tail =~= tail);
        assert(split_lines_spec(wrapped(b) + tail) =~= chunks_of(b) + split_lines_spec(tail));
    } else if b.len() <= w {
        assert(wrapped(b) + tail =~= b + seq!['\n'] + tail);
        lemma_split_line(b, tail);
        assert(split_lines_spec(wrapped(b) + tail) =~= chunks_of(b) + split_lines_spec(tail));
    } else {
        let head = b.take(w);
        let rest = b.skip(w);
        assert(no_newline(head));
        assert(no_newline(rest));
        assert(wrapped(b) + tail =~= head + seq!['\n'] + (wrapped(rest) + tail));
        lemma_split_line(head, wrapped(rest) + tail);
        lemma_split_wrapped(rest, tail);
        assert(split_lines_spec(wrapped(b) + tail) =~= chunks_of(b) + split_lines_spec(tail));
    }
}

/// Concatenating the chunks of a body gives the body back.
pub proof fn lemma_concat_chunks(b: Seq<char>)
    ensures
        concat_lines(chunks_of(b)) == b,
    decreases b.len(),
{
    let w = shared::CHUNK_SIZE as int;
    if b.len() == 0 {
        assert(chunks_of(b) =~= Seq::<Seq<char>>::empty());
        assert(concat_lines(chunks_of(b)) =~= b);
    } else if b.len() <= w {
        assert(chunks_of(b) =~= seq![b]);
        assert(chunks_of(b).drop_first() =~= Seq::<Seq<char>>::empty());
        assert(concat_lines(chunks_of(b)) =~= b + concat_lines(chunks_of(b).drop_first()));
        assert(concat_lines(chunks_of(b)) =~= b);
    } else {
        lemma_concat_chunks(b.skip(w));
        assert(chunks_of(b).drop_first() =~= chunks_of(b.skip(w)));
        assert(concat_lines(chunks_of(b)) =~= b.take(w) + b.skip(w));
        assert(b.take(w) + b.skip(w) =~= b);
    }
}

/// Appending one line to a concatenation appends its text.
pub proof fn lemma_concat_push(ls: Seq<Seq<char>>, x: Seq<char>)
    ensures
        concat_lines(ls.push(x)) == concat_lines(ls) + x,
    decreases ls.len(),
{
    if ls.len() == 0 {
        assert(ls.push(x)[0] == x);
        assert(ls.push(x).drop_first() =~= Seq::<Seq<char>>::empty());
        assert(concat_lines(ls.push(x)) =~= x + concat_lines(ls.push(x).drop_first()));
        assert(concat_lines(ls.push(x)) =~= concat_lines(ls) + x);
    } else {
        assert(ls.push(x).drop_first() =~= ls.drop_first().push(x));
        lemma_concat_push(ls.drop_first(), x);
        assert(concat_lines(ls.push(x)) =~= concat_lines(ls) + x);
    }
}

/// A registered identifier holds no newline.
pub proof fn lemma_algorithm_no_newline(alg: Seq<char>)
    requires
        shared::is_valid_algorithm_spec(alg),
    ensures
        no_newline(alg),
        alg.len() <= 21,
{
    reveal_strlit("crypt-aes-256-gcm");
    reveal_strlit("crypt-aes-256-gcm-siv");
}

/// Header lines hold no newline: they are dashes, spaces, and the title.
pub proof fn lemma_header_no_newline(alg: Seq<char>, kind: Seq<char>)
    requires
        no_newline(alg),
        no_newline(kind),
    ensures
        no_newline(shared::header_subject_spec(alg, kind)),
        shared::header_subject_spec(alg, kind).len() >= 2,
{
    let title = alg + seq![' '] + kind;
    assert(no_newline(title));
    let h = shared::header_subject_spec(alg, kind);
    assert(no_newline(h));
}

/// The header prefix and footer differ: their titles differ in kind.
pub proof fn lemma_prefix_neq_suffix(alg: Seq<char>)
    ensures
        shared::header_prefix_spec(alg) != shared::header_suffix_spec(alg),
{
    reveal_strlit("prefix");
    reveal_strlit("suffix");
    let p = shared::header_prefix_spec(alg);
    let s = shared::header_suffix_spec(alg);
    let title_p = alg + seq![' '] + "prefix"@;
    let title_s = alg + seq![' '] + "suffix"@;
    let len = title_p.len() as int;
    let rw = (shared::CHUNK_SIZE - (len + 2)) / 2;
    let lw = if len % 2 == 1 {
        rw + 1
    } else {
        rw
    };
    let dl = shared::dashes(lw).len() as int;
    let at = dl + 2 + alg.len() as int;
    assert(title_p[alg.len() as int + 1] == "prefix"@[0]);
    assert(title_s[alg.len() as int + 1] == "suffix"@[0]);
    assert(p[at] == title_p[alg.len() as int + 1]);
    assert(s[at] == title_s[alg.len() as int + 1]);
    assert(p[at] == 'p');
    assert(s[at] == 's');
}

/// Parsing inverts assembling, with or without the envelope's final
/// newline: the trailing blank line that the final newline makes is
/// tolerated, and the base64 body comes back exactly.
pub proof fn lemma_parse_assemble(alg: Seq<char>, b64: Seq<char>)
    requires
        shared::is_valid_algorithm_spec(alg),
        no_newline(b64),
    ensures
        parse_spec(alg, assemble_spec(alg, b64)) == ParseOutcome::Body(b64),
        parse_spec(
            alg,
            shared::header_prefix_spec(alg) + seq!['\n'] + wrapped(b64)
                + shared::header_suffix_spec(alg),
        ) == ParseOutcome::Body(b64),
{
    let prefix = shared::header_prefix_spec(alg);
    let suffix = shared::header_suffix_spec(alg);
    lemma_algorithm_no_newline(alg);
    reveal_strlit("prefix");
    reveal_strlit("suffix");
    lemma_header_no_newline(alg, "prefix"@);
    lemma_header_no_newline(alg, "suffix"@);
    lemma_prefix_neq_suffix(alg);
    let chunks = chunks_of(b64);
    lemma_concat_chunks(b64);

    // With the final newline: the lines end with the footer and a blank.
    let text = assemble_spec(alg, b64);
    assert(text =~= prefix + seq!['\n'] + (wrapped(b64) + (suffix + seq!['\n'])));
    lemma_split_line(prefix, wrapped(b64) + (suffix + seq!['\n']));
    lemma_split_wrapped(b64, suffix + seq!['\n']);
    assert(suffix + seq!['\n'] =~= suffix + seq!['\n'] + Seq::<char>::empty());
    lemma_split_line(suffix, Seq::<char>::empty());
    let lines = split_lines_spec(text);
    assert(lines =~= seq![prefix] + chunks + seq![suffix, Seq::<char>::empty()]);
    let last = lines.len() - 1;
    assert(lines[last] =~= Seq::<char>::empty());
    assert(lines[last] != suffix);
    assert(lines[last - 1] == suffix);
    assert(lines.subrange(1, last - 1) =~= chunks);
    assert(parse_spec(alg, text) == ParseOutcome::Body(b64));

    // Without it: the footer is the very last line.
    let text2 = prefix + seq!['\n'] + wrapped(b64) + suffix;
    assert(text2 =~= prefix + seq!['\n'] + (wrapped(b64) + suffix));
    lemma_split_line(prefix, wrapped(b64) + suffix);
    lemma_split_wrapped(b64, suffix);
    lemma_split_whole(suffix);
    let lines2 = split_lines_spec(text2);
    assert(lines2 =~= seq![prefix] + chunks + seq![suffix]);
    let last2 = lines2.len() - 1;
    assert(lines2[last2] == suffix);
    assert(lines2.subrange(1, last2) =~= chunks);
    assert(parse_spec(alg, text2) == ParseOutcome::Body(b64));
}

/// Wrap the body at `CHUNK_SIZE` characters, honoring character
/// boundaries, with a newline after every line.
pub fn wrap_lines(s: &str) -> (r: String)
    ensures
        r@ == wrapped(s@),
{
    let n = s.unicode_len();
    let mut out = String::new();
    let mut pos: usize = 0;
    proof {
        assert(s@.skip(0) =~= s@);
        assert(out@ + wrapped(s@) =~= wrapped(s@));
    }
    while pos < n
        invariant
            pos <= n == s@.len(),
            wrapped(s@) == out@ + wrapped(s@.skip(pos as int)),
        decreases n - pos,
    {
        let end = if n - pos > shared::CHUNK_SIZE {
            pos + shared::CHUNK_SIZE
        } else {
            n
        };
        let chunk = s.substring_char(pos, end);
        out.append(chunk);
        out.append("\n");
        proof {
            reveal_strlit("\n");
            assert("\n"@ =~= seq!['\n']);
            let rest = s@.skip(pos as int);
            if n - pos > shared::CHUNK_SIZE {
                assert(chunk@ =~= rest.take(shared::CHUNK_SIZE as int));
                assert(rest.skip(shared::CHUNK_SIZE as int) =~= s@.skip(end as int));
                assert(wrapped(rest) =~= chunk@ + seq!['\n'] + wrapped(s@.skip(end as int)));
            } else {
                assert(chunk@ =~= rest);
                assert(s@.skip(end as int) =~= Seq::<char>::empty());
                assert(wrapped(rest) =~= chunk@ + seq!['\n'] + wrapped(s@.skip(end as int)));
            }
        }
        pos = end;
    }
    proof {
        assert(s@.skip(n as int) =~= Seq::<char>::empty());
        assert(out@ =~= wrapped(s@));
    }
    out
}

/// Split the text into lines on the newline character.
pub fn split_lines(s: &str) -> (r: Vec<String>)
    ensures
        views_of(r@) == split_lines_spec(s@),
        r@.len() >= 1,
{
    let n = s.unicode_len();
    let mut lines: Vec<String> = Vec::new();
    let mut start: usize = 0;
    let mut i: usize = 0;
    proof {
        assert(views_of(lines@) =~= Seq::<Seq<char>>::empty());
        assert(s@.skip(0) =~= s@);
        assert(views_of(lines@) + split_lines_spec(s@) =~= split_lines_spec(s@));
        assert(s@.subrange(0, 0) =~= Seq::<char>::empty());
    }
    while i < n
        invariant
            start <= i <= n == s@.len(),
            no_newline(s@.subrange(start as int, i as int)),
            split_lines_spec(s@) == views_of(lines@) + split_lines_spec(s@.skip(start as int)),
        decreases n - i,
    {
        let c = s.get_char(i);
        if c == '\n' {
            let ghost prev = lines@;
            let line = s.substring_char(start, i);
            lines.push(line.to_owned());
            proof {
                let cur = s@.subrange(start as int, i as int);
                assert(s@.skip(start as int) =~= cur + seq!['\n'] + s@.skip(i as int + 1));
                lemma_split_line(cur, s@.skip(i as int + 1));
                assert(views_of(lines@) =~= views_of(prev).push(line@));
                assert(views_of(prev) + (seq![cur] + split_lines_spec(s@.skip(i as int + 1)))
                    =~= views_of(lines@) + split_lines_spec(s@.skip(i as int + 1)));
            }
            start = i + 1;
            proof {
                assert(s@.subrange(start as int, i as int + 1) =~= Seq::<char>::empty());
            }
        } else {
            proof {
                assert(s@.subrange(start as int, i as int + 1) =~= s@.subrange(
                    start as int,
                    i as int,
                ) + seq![s@[i as int]]);
            }
        }
        i = i + 1;
    }
    let ghost prev = lines@;
    let line = s.substring_char(start, n);
    lines.push(line.to_owned());
    proof {
        let cur = s@.subrange(start as int, n as int);
        assert(cur =~= s@.skip(start as int));
        lemma_split_whole(cur);
        assert(views_of(lines@) =~= views_of(prev).push(line@));
        assert(views_of(lines@) =~= views_of(prev) + seq![cur]);
        assert(views_of(lines@) =~= split_lines_spec(s@));
    }
    lines
}

/// Assemble the envelope around an already encoded base64 body.
pub fn assemble(algorithm: String, body_b64: &str) -> (r: String)
    requires
        shared::is_valid_algorithm_spec(algorithm@),
    ensures
        r@ == assemble_spec(algorithm@, body_b64@),
{
    let suffix = shared::header_suffix(algorithm.clone());
    let mut r = shared::header_prefix(algorithm);
    let body = wrap_lines(body_b64);
    r.append("\n");
    r.append(body.as_str());
    r.append(suffix.as_str());
    r.append("\n");
    proof {
        reveal_strlit("\n");
        assert("\n"@ =~= seq!['\n']);
        assert(r@ =~= assemble_spec(algorithm@, body_b64@));
    }
    r
}

/// Parse an envelope: check the header, find the footer (tolerating one
/// trailing blank line), and return the concatenated base64 body.
pub fn parse(algorithm: String, text: &str) -> (r: Result<String, EnvelopeError>)
    requires
        shared::is_valid_algorithm_spec(algorithm@),
    ensures
        (match r {
            Ok(body) => parse_spec(algorithm@, text@) == ParseOutcome::Body(body@),
            Err(EnvelopeError::InvalidPrefix(l)) => parse_spec(algorithm@, text@)
                == ParseOutcome::BadPrefix(l@),
            Err(EnvelopeError::InvalidSuffix(l)) => parse_spec(algorithm@, text@)
                == ParseOutcome::BadSuffix(l@),
        }),
{
    let ghost linesv = split_lines_spec(text@);
    let lines = split_lines(text);
    let prefix = shared::header_prefix(algorithm.clone());
    let suffix = shared::header_suffix(algorithm);
    if !lines[0].eq(&prefix) {
        return Err(EnvelopeError::InvalidPrefix(lines[0].clone()));
    }
    let mut max = lines.len() - 1;
    if !lines[max].eq(&suffix) {
        if max == 0 {
            return Err(EnvelopeError::InvalidSuffix(lines[max].clone()));
        }
        max = max - 1;
        if !lines[max].eq(&suffix) {
            return Err(EnvelopeError::InvalidSuffix(lines[max].clone()));
        }
    }
    let mut body = String::new();
    let mut j: usize = 1;
    while j < max
        invariant
            1 <= j <= max || (max == 0 && j == 1),
            max < lines@.len(),
            views_of(lines@) == linesv,
            body@ == (if j <= max {
                concat_lines(linesv.subrange(1, j as int))
            } else {
                Seq::<char>::empty()
            }),
        decreases max - j,
    {
        body.append(lines[j].as_str());
        proof {
            lemma_concat_push(linesv.subrange(1, j as int), linesv[j as int]);
            assert(linesv.subrange(1, j as int + 1) =~= linesv.subrange(1, j as int).push(
                linesv[j as int],
            ));
        }
        j = j + 1;
    }
    proof {
        if max >= 1 {
            assert(body@ == body_of(linesv, max as int));
        } else {
            assert(body@ =~= body_of(linesv, max as int));
        }
    }
    Ok(body)
}

} // verus!
