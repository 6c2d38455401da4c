//! Script literal builder: one safely quoted automation command for a
//! whole batch.
//!
//! The desktop automation interface deletes a list of file references
//! given as one script-language command. Each path's text form is
//! wrapped in a quoted `POSIX file "…"` literal and the batch is
//! joined into a single list embedded in the command template. Before
//! embedding, every character meaningful to the interface's own
//! string-literal syntax — double quote and backslash — is escaped, so
//! that no path content can terminate the literal early or inject
//! script text of its own. This is a security contract, not
//! formatting: unescaped path content would become executable script.

use vstd::prelude::*;

use crate::codec::{spec_encode, spec_decode, spec_encoded_texts, all_printable,
    lemma_decode_encode, lemma_encode_printable, lemma_printable_append};
use crate::error::Error;
use crate::item::push_all;

verus! {

/// An ASCII double quote, the literal delimiter.
pub const QUOTE: u8 = 0x22;

/// An ASCII backslash, the literal escape character.
pub const BACKSLASH: u8 = 0x5c;

/// How one byte is embedded in a quoted literal: the delimiter and the
/// escape character get a leading escape, all else passes through.
pub open spec fn escape_byte(b: u8) -> Seq<u8> {
    if b == QUOTE || b == BACKSLASH {
        seq![BACKSLASH, b]
    } else {
        seq![b]
    }
}

/// The escaped form of a whole byte sequence.
pub open spec fn spec_escape(s: Seq<u8>) -> Seq<u8>
    decreases s.len(),
{
    if s.len() == 0 {
        Seq::empty()
    } else {
        escape_byte(s[0]) + spec_escape(s.skip(1))
    }
}

/// Splitting the input anywhere splits the escaped form accordingly.
proof fn lemma_escape_append(a: Seq<u8>, b: Seq<u8>)
    ensures
        spec_escape(a + b) == spec_escape(a) + spec_escape(b),
    decreases a.len(),
{
    if a.len() == 0 {
        assert(a + b =~= b);
        assert(spec_escape(a) + spec_escape(b) =~= spec_escape(b));
    } else {
        assert((a + b).skip(1) =~= a.skip(1) + b);
        lemma_escape_append(a.skip(1), b);
        assert(escape_byte(a[0]) + (spec_escape(a.skip(1)) + spec_escape(b)) =~= (escape_byte(a[0])
            + spec_escape(a.skip(1))) + spec_escape(b));
    }
}

/// Extending the input by one byte appends that byte's escaped form.
proof fn lemma_escape_snoc(s: Seq<u8>, i: int)
    requires
        0 <= i < s.len(),
    ensures
        spec_escape(s.take(i + 1)) == spec_escape(s.take(i)) + escape_byte(s[i]),
{
    assert(s.take(i + 1) =~= s.take(i) + seq![s[i]]);
    lemma_escape_append(s.take(i), seq![s[i]]);
    assert(seq![s[i]].skip(1) =~= Seq::<u8>::empty());
    assert(spec_escape(Seq::<u8>::empty()) =~= Seq::<u8>::empty());
    assert(spec_escape(seq![s[i]]) =~= escape_byte(s[i]) + spec_escape(seq![s[i]].skip(1)));
    assert(escape_byte(s[i]) + Seq::<u8>::empty() =~= escape_byte(s[i]));
}

/// Escapes literal delimiters and escape characters in text bound for
/// a quoted script literal.
pub fn esc_quote(input: &Vec<u8>) -> (r: Vec<u8>)
    ensures
        r@ == spec_escape(input@),
{
    let mut out: Vec<u8> = Vec::new();
    let mut i: usize = 0;
    proof {
        assert(input@.take(0) =~= Seq::<u8>::empty());
    }
    while i < input.len()
        invariant
            i <= input@.len(),
            out@ == spec_escape(input@.take(i as int)),
        decreases input@.len() - i,
    {
        let b = input[i];
        proof {
            lemma_escape_snoc(input@, i as int);
        }
        if b == QUOTE || b == BACKSLASH {
            out.push(BACKSLASH);
            out.push(b);
        } else {
            out.push(b);
        }
        i = i + 1;
    }
    proof {
        assert(input@.take(input@.len() as int) =~= input@);
    }
    out
}

/// The automation interface's own reading of a quoted literal's tail:
/// given everything after an opening quote, an escape takes the next
/// byte verbatim and an unescaped quote ends the literal. Yields the
/// content read and the position just past the closing quote, or
/// nothing for an unterminated literal.
pub open spec fn spec_read_literal(s: Seq<u8>) -> Option<(Seq<u8>, int)>
    decreases s.len(),
{
    if s.len() == 0 {
        None
    } else if s[0] == QUOTE {
        Some((Seq::empty(), 1))
    } else if s[0] == BACKSLASH {
        if s.len() < 2 {
            None
        } else {
            match spec_read_literal(s.skip(2)) {
                Some(r) => Some((seq![s[1]] + r.0, r.1 + 2)),
                None => None,
            }
        }
    } else {
        match spec_read_literal(s.skip(1)) {
            Some(r) => Some((seq![s[0]] + r.0, r.1 + 1)),
            None => None,
        }
    }
}

/// Injection resistance of the quoting rule: however hostile the
/// embedded text — quotes, backslashes, anything — the interface's
/// reader consumes exactly the escaped text plus the closing quote,
/// yields the embedded text unchanged, and never reads into what
/// follows the literal.
pub proof fn lemma_escape_reads_back(t: Seq<u8>, rest: Seq<u8>)
    ensures
        spec_read_literal(spec_escape(t) + seq![QUOTE] + rest) == Some(
            (t, spec_escape(t).len() + 1 as int),
        ),
    decreases t.len(),
{
    let s = spec_escape(t) + seq![QUOTE] + rest;
    if t.len() == 0 {
        assert(spec_escape(t) =~= Seq::<u8>::empty());
        assert(s[0] == QUOTE);
        assert(spec_read_literal(s) == Some((Seq::<u8>::empty(), 1 as int)));
        assert(t =~= Seq::<u8>::empty());
    } else {
        let c = t[0];
        lemma_escape_reads_back(t.skip(1), rest);
        if c == QUOTE || c == BACKSLASH {
            assert(s[0] == BACKSLASH && s[1] == c);
            assert(s.skip(2) =~= spec_escape(t.skip(1)) + seq![QUOTE] + rest);
            assert(seq![c] + t.skip(1) =~= t);
        } else {
            assert(s[0] == c);
            assert(s.skip(1) =~= spec_escape(t.skip(1)) + seq![QUOTE] + rest);
            assert(seq![c] + t.skip(1) =~= t);
        }
    }
}

/// The text `POSIX file "` that opens each per-item literal.
pub open spec fn posix_prefix() -> Seq<u8> {
    seq![0x50, 0x4f, 0x53, 0x49, 0x58, 0x20, 0x66, 0x69, 0x6c, 0x65, 0x20, 0x22]
}

/// One per-item literal: `POSIX file "` plus the escaped text plus the
/// closing quote.
pub open spec fn spec_posix_literal(t: Seq<u8>) -> Seq<u8> {
    posix_prefix() + spec_escape(t) + seq![QUOTE]
}

/// The text `, ` between two list entries.
pub open spec fn list_separator() -> Seq<u8> {
    seq![0x2c, 0x20]
}

/// The text `tell application "Finder" to delete { ` that opens the
/// command.
pub open spec fn script_prefix() -> Seq<u8> {
    seq![
        0x74, 0x65, 0x6c, 0x6c, 0x20, 0x61, 0x70, 0x70, 0x6c, 0x69, 0x63, 0x61, 0x74, 0x69, 0x6f,
        0x6e, 0x20, 0x22, 0x46, 0x69, 0x6e, 0x64, 0x65, 0x72, 0x22, 0x20, 0x74, 0x6f, 0x20, 0x64,
        0x65, 0x6c, 0x65, 0x74, 0x65, 0x20, 0x7b, 0x20,
    ]
}

/// The text ` }` that closes the command.
pub open spec fn script_suffix() -> Seq<u8> {
    seq![0x20, 0x7d]
}

/// The comma-separated list of per-item literals.
pub open spec fn spec_literal_list(ts: Seq<Seq<u8>>) -> Seq<u8>
    decreases ts.len(),
{
    if ts.len() == 0 {
        Seq::empty()
    } else if ts.len() == 1 {
        spec_posix_literal(ts[0])
    } else {
        spec_posix_literal(ts[0]) + list_separator() + spec_literal_list(ts.skip(1))
    }
}

/// The whole command for a batch of text forms.
pub open spec fn spec_finder_script(ts: Seq<Seq<u8>>) -> Seq<u8> {
    script_prefix() + spec_literal_list(ts) + script_suffix()
}

/// Extending the batch by one text appends a separator (except before
/// the first entry) and that text's literal.
proof fn lemma_literal_list_snoc(ts: Seq<Seq<u8>>, t: Seq<u8>)
    ensures
        ts.len() == 0 ==> spec_literal_list(ts.push(t)) == spec_posix_literal(t),
        ts.len() > 0 ==> spec_literal_list(ts.push(t)) == spec_literal_list(ts) + list_separator()
            + spec_posix_literal(t),
    decreases ts.len(),
{
    if ts.len() == 0 {
        assert(ts.push(t)[0] == t);
    } else if ts.len() == 1 {
        assert(ts.push(t).skip(1) =~= seq![t]);
        assert(spec_literal_list(seq![t]) == spec_posix_literal(t));
    } else {
        lemma_literal_list_snoc(ts.skip(1), t);
        assert(ts.push(t).skip(1) =~= ts.skip(1).push(t));
        assert(spec_posix_literal(ts[0]) + list_separator() + (spec_literal_list(ts.skip(1))
            + list_separator() + spec_posix_literal(t)) =~= (spec_posix_literal(ts[0])
            + list_separator() + spec_literal_list(ts.skip(1))) + list_separator()
            + spec_posix_literal(t));
    }
}

/// The opening text of the command, as bytes.
fn script_prefix_text() -> (r: Vec<u8>)
    ensures
        r@ == script_prefix(),
{
    let r: Vec<u8> = vec![
        0x74, 0x65, 0x6c, 0x6c, 0x20, 0x61, 0x70, 0x70, 0x6c, 0x69, 0x63, 0x61, 0x74, 0x69, 0x6f,
        0x6e, 0x20, 0x22, 0x46, 0x69, 0x6e, 0x64, 0x65, 0x72, 0x22, 0x20, 0x74, 0x6f, 0x20, 0x64,
        0x65, 0x6c, 0x65, 0x74, 0x65, 0x20, 0x7b, 0x20,
    ];
    proof {
        assert(r@ =~= script_prefix());
    }
    r
}

/// The opening text of one per-item literal, as bytes.
fn posix_prefix_text() -> (r: Vec<u8>)
    ensures
        r@ == posix_prefix(),
{
    let r: Vec<u8> = vec![0x50, 0x4f, 0x53, 0x49, 0x58, 0x20, 0x66, 0x69, 0x6c, 0x65, 0x20, 0x22];
    proof {
        assert(r@ =~= posix_prefix());
    }
    r
}

/// Builds the single command that asks the automation interface to
/// delete the whole batch, one quoted literal per text form, in input
/// order.
pub fn build_finder_script(texts: &Vec<Vec<u8>>) -> (r: Vec<u8>)
    ensures
        r@ == spec_finder_script(texts.deep_view()),
{
    let ghost ts = texts.deep_view();
    let mut out: Vec<u8> = script_prefix_text();
    let posix = posix_prefix_text();
    let mut i: usize = 0;
    proof {
        assert(ts.take(0) =~= Seq::<Seq<u8>>::empty());
        assert(out@ + Seq::<u8>::empty() =~= out@);
    }
    while i < texts.len()
        invariant
            i <= ts.len(),
            ts == texts.deep_view(),
            ts.len() == texts@.len(),
            posix@ == posix_prefix(),
            out@ == script_prefix() + spec_literal_list(ts.take(i as int)),
        decreases ts.len() - i,
    {
        proof {
            assert(ts.take(i + 1) =~= ts.take(i as int).push(ts[i as int]));
            lemma_literal_list_snoc(ts.take(i as int), ts[i as int]);
        }
        if i > 0 {
            out.push(0x2c);
            out.push(0x20);
            proof {
                assert(out@ =~= script_prefix() + (spec_literal_list(ts.take(i as int))
                    + list_separator()));
            }
        }
        let ghost before_literal = out@;
        push_all(&mut out, &posix);
        let escaped = esc_quote(&texts[i]);
        assert(texts[i as int]@ == ts[i as int]);
        push_all(&mut out, &escaped);
        out.push(QUOTE);
        proof {
            assert(out@ =~= before_literal + spec_posix_literal(ts[i as int]));
            if i > 0 {
                assert(out@ =~= script_prefix() + (spec_literal_list(ts.take(i as int))
                    + list_separator() + spec_posix_literal(ts[i as int])));
            } else {
                assert(before_literal =~= script_prefix());
            }
        }
        i = i + 1;
    }
    proof {
        assert(ts.take(ts.len() as int) =~= ts);
    }
    out.push(0x20);
    out.push(0x7d);
    proof {
        assert(out@ =~= script_prefix() + spec_literal_list(ts) + script_suffix());
    }
    out
}

/// How one run of the automation process ended: with a numeric exit
/// code, or terminated without one.
#[derive(Clone, Copy, Debug)]
pub enum ScriptExit {
    /// The process exited and reported this code.
    Exited(i32),
    /// The process was terminated without an exit code.
    Signaled,
}

/// Judges one run of the automation process: exit code zero is success
/// for the whole batch, anything else is failure for the whole batch,
/// reported with the captured diagnostic text and the exit code when
/// one exists.
pub fn interpret_script_exit(exit: ScriptExit, diagnostic: Vec<u8>) -> (r: Result<(), Error>)
    ensures
        (exit matches ScriptExit::Exited(c) && c == 0) <==> r is Ok,
        match exit {
            ScriptExit::Exited(c) => c != 0 ==> (r matches Err(Error::Process {
                code,
                diagnostic: d,
            }) && code == Some(c) && d@ == diagnostic@),
            ScriptExit::Signaled => (r matches Err(Error::Process { code, diagnostic: d })
                && code is None && d@ == diagnostic@),
        },
{
    match exit {
        ScriptExit::Exited(c) => {
            if c == 0 {
                Ok(())
            } else {
                Err(Error::Process { code: Some(c), diagnostic })
            }
        },
        ScriptExit::Signaled => Err(Error::Process { code: None, diagnostic }),
    }
}

/// Escaping printable text keeps it printable: the escape character
/// itself is, and everything else passes through.
proof fn lemma_escape_printable(s: Seq<u8>)
    requires
        all_printable(s),
    ensures
        all_printable(spec_escape(s)),
    decreases s.len(),
{
    if s.len() > 0 {
        assert(all_printable(s.skip(1)));
        lemma_escape_printable(s.skip(1));
        assert(all_printable(escape_byte(s[0])));
        lemma_printable_append(escape_byte(s[0]), spec_escape(s.skip(1)));
    }
}

/// A per-item literal over printable text is printable throughout.
proof fn lemma_posix_literal_printable(t: Seq<u8>)
    requires
        all_printable(t),
    ensures
        all_printable(spec_posix_literal(t)),
{
    lemma_escape_printable(t);
    assert(all_printable(posix_prefix()));
    assert(all_printable(seq![QUOTE]));
    lemma_printable_append(posix_prefix(), spec_escape(t));
    lemma_printable_append(posix_prefix() + spec_escape(t), seq![QUOTE]);
    assert(posix_prefix() + spec_escape(t) + seq![QUOTE] =~= (posix_prefix() + spec_escape(t))
        + seq![QUOTE]);
}

/// A literal list over printable texts is printable throughout.
proof fn lemma_literal_list_printable(ts: Seq<Seq<u8>>)
    requires
        forall|i: int| 0 <= i < ts.len() ==> all_printable(#[trigger] ts[i]),
    ensures
        all_printable(spec_literal_list(ts)),
    decreases ts.len(),
{
    if ts.len() == 0 {
    } else if ts.len() == 1 {
        lemma_posix_literal_printable(ts[0]);
    } else {
        lemma_posix_literal_printable(ts[0]);
        assert(forall|i: int| 0 <= i < ts.skip(1).len() ==> all_printable(#[trigger] ts.skip(1)[i]));
        lemma_literal_list_printable(ts.skip(1));
        assert(all_printable(list_separator()));
        lemma_printable_append(spec_posix_literal(ts[0]), list_separator());
        lemma_printable_append(spec_posix_literal(ts[0]) + list_separator(), spec_literal_list(
            ts.skip(1),
        ));
        assert(spec_posix_literal(ts[0]) + list_separator() + spec_literal_list(ts.skip(1)) =~= (
        spec_posix_literal(ts[0]) + list_separator()) + spec_literal_list(ts.skip(1)));
    }
}

/// The built command is printable ASCII throughout — and so in
/// particular valid text — whatever bytes the paths held: the codec
/// makes each text form printable, and escaping and the template keep
/// the whole command so.
pub proof fn lemma_script_printable(ps: Seq<Seq<u8>>)
    ensures
        all_printable(spec_finder_script(spec_encoded_texts(ps))),
{
    let ts = spec_encoded_texts(ps);
    assert forall|i: int| 0 <= i < ts.len() implies all_printable(#[trigger] ts[i]) by {
        lemma_encode_printable(ps[i]);
    }
    lemma_literal_list_printable(ts);
    assert(all_printable(script_prefix()));
    assert(all_printable(script_suffix()));
    lemma_printable_append(script_prefix(), spec_literal_list(ts));
    lemma_printable_append(script_prefix() + spec_literal_list(ts), script_suffix());
    assert(script_prefix() + spec_literal_list(ts) + script_suffix() =~= (script_prefix()
        + spec_literal_list(ts)) + script_suffix());
}

/// Reading the literal built for a path recovers the path's text form,
/// and decoding that text form recovers the original path bytes: the
/// quoting rule composes with the byte-path codec.
pub proof fn lemma_literal_recovers_path(p: Seq<u8>, rest: Seq<u8>)
    ensures
        spec_read_literal(spec_escape(spec_encode(p)) + seq![QUOTE] + rest) == Some(
            (spec_encode(p), spec_escape(spec_encode(p)).len() + 1 as int),
        ),
        spec_decode(spec_encode(p)) == Some(p),
{
    lemma_escape_reads_back(spec_encode(p), rest);
    lemma_decode_encode(p);
}

} // verus!
