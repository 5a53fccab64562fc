//! Rendering of protocol responses as JSON text, specified character
//! by character.
//!
//! The protocol's responses hold only strings, booleans, null and
//! flat objects of those, so the whole rendering — escaping included,
//! after JSON's rules for strings — is ordinary verified code.

use vstd::prelude::*;

use crate::gitops::WorktreeInfo;
use crate::status::GitStatusEntry;
use crate::strutil::push_char;

verus! {

/// The lowercase hex digit for a value below sixteen.
pub open spec fn hex_char(d: int) -> char {
    if d < 10 {
        crate::strutil::digit_char(d)
    } else if d == 10 {
        'a'
    } else if d == 11 {
        'b'
    } else if d == 12 {
        'c'
    } else if d == 13 {
        'd'
    } else if d == 14 {
        'e'
    } else {
        'f'
    }
}

/// How one character appears inside a JSON string literal: quote and
/// backslash are escaped, the named control characters take their
/// short escapes, other control characters their \u00.. form, and
/// everything else stands as it is.
pub open spec fn escape_char(c: char) -> Seq<char> {
    if c == '"' {
        seq!['\\', '"']
    } else if c == '\\' {
        seq!['\\', '\\']
    } else if c == '\u{8}' {
        seq!['\\', 'b']
    } else if c == '\u{c}' {
        seq!['\\', 'f']
    } else if c == '\n' {
        seq!['\\', 'n']
    } else if c == '\r' {
        seq!['\\', 'r']
    } else if c == '\t' {
        seq!['\\', 't']
    } else if (c as u32) < 0x20 {
        seq!['\\', 'u', '0', '0', hex_char((c as u32) as int / 16), hex_char((c as u32) as int % 16)]
    } else {
        seq![c]
    }
}

/// A whole text with every character escaped.
pub open spec fn json_escaped(s: Seq<char>) -> Seq<char>
    decreases s.len(),
{
    if s.len() == 0 {
        Seq::empty()
    } else {
        json_escaped(s.drop_last()) + escape_char(s.last())
    }
}

/// A JSON string literal: the escaped text in double quotes.
pub open spec fn json_str(s: Seq<char>) -> Seq<char> {
    seq!['"'] + json_escaped(s) + seq!['"']
}

fn hex_char_exec(d: u32) -> (c: char)
    requires
        d < 16,
    ensures
        c == hex_char(d as int),
{
    if d == 0 {
        '0'
    } else if d == 1 {
        '1'
    } else if d == 2 {
        '2'
    } else if d == 3 {
        '3'
    } else if d == 4 {
        '4'
    } else if d == 5 {
        '5'
    } else if d == 6 {
        '6'
    } else if d == 7 {
        '7'
    } else if d == 8 {
        '8'
    } else if d == 9 {
        '9'
    } else if d == 10 {
        'a'
    } else if d == 11 {
        'b'
    } else if d == 12 {
        'c'
    } else if d == 13 {
        'd'
    } else if d == 14 {
        'e'
    } else {
        'f'
    }
}

fn append_escaped_char(out: &mut String, c: char)
    ensures
        final(out)@ == old(out)@ + escape_char(c),
{
    if c == '"' {
        push_char(out, '\\');
        push_char(out, '"');
    } else if c == '\\' {
        push_char(out, '\\');
        push_char(out, '\\');
    } else if c == '\u{8}' {
        push_char(out, '\\');
        push_char(out, 'b');
    } else if c == '\u{c}' {
        push_char(out, '\\');
        push_char(out, 'f');
    } else if c == '\n' {
        push_char(out, '\\');
        push_char(out, 'n');
    } else if c == '\r' {
        push_char(out, '\\');
        push_char(out, 'r');
    } else if (c as u32) < 0x20 {
        let code = c as u32;
        if c == '\t' {
            push_char(out, '\\');
            push_char(out, 't');
        } else {
            push_char(out, '\\');
            push_char(out, 'u');
            push_char(out, '0');
            push_char(out, '0');
            push_char(out, hex_char_exec(code / 16));
            push_char(out, hex_char_exec(code % 16));
        }
    } else {
        push_char(out, c);
    }
    proof {
        assert(out@ =~= old(out)@ + escape_char(c));
    }
}

/// Appends `s` to `out` as a JSON string literal.
pub fn append_json_string(out: &mut String, s: &str)
    ensures
        final(out)@ == old(out)@ + json_str(s@),
{
    push_char(out, '"');
    let len = s.unicode_len();
    let mut i: usize = 0;
    while i < len
        invariant
            len == s@.len(),
            0 <= i <= len,
            out@ =~= old(out)@ + seq!['"'] + json_escaped(s@.take(i as int)),
        decreases len - i,
    {
        proof {
            assert(s@.take(i + 1).drop_last() =~= s@.take(i as int));
            assert(s@.take(i + 1).last() == s@[i as int]);
        }
        append_escaped_char(out, s.get_char(i));
        i += 1;
    }
    proof {
        assert(s@.take(len as int) =~= s@);
    }
    push_char(out, '"');
    proof {
        assert(out@ =~= old(out)@ + json_str(s@));
    }
}

/// Appends a literal piece of JSON punctuation or keyword.
pub fn append_literal(out: &mut String, piece: &str)
    ensures
        final(out)@ == old(out)@ + piece@,
{
    let len = piece.unicode_len();
    let mut i: usize = 0;
    while i < len
        invariant
            len == piece@.len(),
            0 <= i <= len,
            out@ =~= old(out)@ + piece@.take(i as int),
        decreases len - i,
    {
        push_char(out, piece.get_char(i));
        proof {
            assert(piece@.take(i + 1) =~= piece@.take(i as int).push(piece@[i as int]));
        }
        i += 1;
    }
    proof {
        assert(piece@.take(len as int) =~= piece@);
        assert(out@ =~= old(out)@ + piece@);
    }
}


/// The JSON keyword for a boolean.
pub open spec fn json_bool(b: bool) -> Seq<char> {
    if b {
        "true"@
    } else {
        "false"@
    }
}

/// Renderings joined with commas.
pub open spec fn comma_join(items: Seq<Seq<char>>) -> Seq<char>
    decreases items.len(),
{
    if items.len() == 0 {
        Seq::empty()
    } else if items.len() == 1 {
        items[0]
    } else {
        comma_join(items.drop_last()) + ","@ + items.last()
    }
}

/// A JSON array of the given renderings.
pub open spec fn json_array(items: Seq<Seq<char>>) -> Seq<char> {
    "["@ + comma_join(items) + "]"@
}

/// What a successful call hands back, to be rendered as the
/// response's result member.
pub enum RpcOutcome {
    Null,
    Bool(bool),
    Str(String),
    StrList(Vec<String>),
    Worktrees(Vec<WorktreeInfo>),
    Statuses(Vec<GitStatusEntry>),
}

/// One worktree as a JSON object, members in declaration order.
pub open spec fn json_of_worktree(w: WorktreeInfo) -> Seq<char> {
    "{\"path\":"@ + json_str(w.path@) + ",\"head\":"@ + json_str(w.head@) + ",\"branch\":"@ + (
    match w.branch {
        Some(b) => json_str(b@),
        None => "null"@,
    }) + ",\"bare\":"@ + json_bool(w.bare) + ",\"detached\":"@ + json_bool(w.detached)
        + ",\"locked\":"@ + json_bool(w.locked) + ",\"prunable\":"@ + json_bool(w.prunable) + "}"@
}

/// One status entry as a JSON object.
pub open spec fn json_of_status(e: GitStatusEntry) -> Seq<char> {
    "{\"path\":"@ + json_str(e.path@) + ",\"status\":"@ + json_str(e.status@) + "}"@
}

/// A call outcome as JSON.
pub open spec fn json_of_outcome(o: RpcOutcome) -> Seq<char> {
    match o {
        RpcOutcome::Null => "null"@,
        RpcOutcome::Bool(b) => json_bool(b),
        RpcOutcome::Str(s) => json_str(s@),
        RpcOutcome::StrList(items) => json_array(
            items@.map_values(|s: String| json_str(s@)),
        ),
        RpcOutcome::Worktrees(ws) => json_array(
            ws@.map_values(|w: WorktreeInfo| json_of_worktree(w)),
        ),
        RpcOutcome::Statuses(es) => json_array(
            es@.map_values(|e: GitStatusEntry| json_of_status(e)),
        ),
    }
}

/// A whole response object: id, ok, result, error, in this order;
/// absent result or error renders as null.
pub open spec fn json_of_response(
    id: Seq<char>,
    ok: bool,
    result: Option<RpcOutcome>,
    error: Option<Seq<char>>,
) -> Seq<char> {
    "{\"id\":"@ + json_str(id) + ",\"ok\":"@ + json_bool(ok) + ",\"result\":"@ + (match result {
        Some(o) => json_of_outcome(o),
        None => "null"@,
    }) + ",\"error\":"@ + (match error {
        Some(e) => json_str(e),
        None => "null"@,
    }) + "}"@
}

fn append_bool(out: &mut String, b: bool)
    ensures
        final(out)@ == old(out)@ + json_bool(b),
{
    if b {
        append_literal(out, "true");
    } else {
        append_literal(out, "false");
    }
}

proof fn lemma_concat_assoc(a: Seq<char>, b: Seq<char>, c: Seq<char>)
    ensures
        (a + b) + c =~= a + (b + c),
{
}

fn append_worktree(out: &mut String, w: &WorktreeInfo)
    ensures
        final(out)@ == old(out)@ + json_of_worktree(*w),
{
    let ghost base = old(out)@;
    append_literal(out, "{\"path\":");
    let ghost acc = "{\"path\":"@;
    append_json_string(out, w.path.as_str());
    proof {
        lemma_concat_assoc(base, acc, json_str(w.path@));
    }
    let ghost acc = acc + json_str(w.path@);
    append_literal(out, ",\"head\":");
    proof {
        lemma_concat_assoc(base, acc, ",\"head\":"@);
    }
    let ghost acc = acc + ",\"head\":"@;
    append_json_string(out, w.head.as_str());
    proof {
        lemma_concat_assoc(base, acc, json_str(w.head@));
    }
    let ghost acc = acc + json_str(w.head@);
    append_literal(out, ",\"branch\":");
    proof {
        lemma_concat_assoc(base, acc, ",\"branch\":"@);
    }
    let ghost acc = acc + ",\"branch\":"@;
    let ghost branch_piece = match &w.branch {
        Some(b) => json_str(b@),
        None => "null"@,
    };
    match &w.branch {
        Some(b) => append_json_string(out, b.as_str()),
        None => append_literal(out, "null"),
    }
    proof {
        lemma_concat_assoc(base, acc, branch_piece);
    }
    let ghost acc = acc + branch_piece;
    append_literal(out, ",\"bare\":");
    proof {
        lemma_concat_assoc(base, acc, ",\"bare\":"@);
    }
    let ghost acc = acc + ",\"bare\":"@;
    append_bool(out, w.bare);
    proof {
        lemma_concat_assoc(base, acc, json_bool(w.bare));
    }
    let ghost acc = acc + json_bool(w.bare);
    append_literal(out, ",\"detached\":");
    proof {
        lemma_concat_assoc(base, acc, ",\"detached\":"@);
    }
    let ghost acc = acc + ",\"detached\":"@;
    append_bool(out, w.detached);
    proof {
        lemma_concat_assoc(base, acc, json_bool(w.detached));
    }
    let ghost acc = acc + json_bool(w.detached);
    append_literal(out, ",\"locked\":");
    proof {
        lemma_concat_assoc(base, acc, ",\"locked\":"@);
    }
    let ghost acc = acc + ",\"locked\":"@;
    append_bool(out, w.locked);
    proof {
        lemma_concat_assoc(base, acc, json_bool(w.locked));
    }
    let ghost acc = acc + json_bool(w.locked);
    append_literal(out, ",\"prunable\":");
    proof {
        lemma_concat_assoc(base, acc, ",\"prunable\":"@);
    }
    let ghost acc = acc + ",\"prunable\":"@;
    append_bool(out, w.prunable);
    proof {
        lemma_concat_assoc(base, acc, json_bool(w.prunable));
    }
    let ghost acc = acc + json_bool(w.prunable);
    append_literal(out, "}");
    proof {
        lemma_concat_assoc(base, acc, "}"@);
        assert(acc + "}"@ == json_of_worktree(*w));
    }
}

fn append_status(out: &mut String, e: &GitStatusEntry)
    ensures
        final(out)@ == old(out)@ + json_of_status(*e),
{
    append_literal(out, "{\"path\":");
    append_json_string(out, e.path.as_str());
    append_literal(out, ",\"status\":");
    append_json_string(out, e.status.as_str());
    append_literal(out, "}");
    proof {
        assert(out@ =~= old(out)@ + json_of_status(*e));
    }
}

#[verifier::rlimit(100)]
fn append_outcome(out: &mut String, o: &RpcOutcome)
    ensures
        final(out)@ == old(out)@ + json_of_outcome(*o),
{
    match o {
        RpcOutcome::Null => {
            append_literal(out, "null");
        },
        RpcOutcome::Bool(b) => {
            append_bool(out, *b);
        },
        RpcOutcome::Str(s) => {
            append_json_string(out, s.as_str());
        },
        RpcOutcome::StrList(items) => {
            let ghost rendered = items@.map_values(|s: String| json_str(s@));
            append_literal(out, "[");
            let ghost mid = out@;
            let mut i: usize = 0;
            while i < items.len()
                invariant
                    rendered == items@.map_values(|s: String| json_str(s@)),
                    0 <= i <= items@.len(),
                    out@ =~= mid + comma_join(rendered.take(i as int)),
                decreases items@.len() - i,
            {
                if i > 0 {
                    append_literal(out, ",");
                }
                append_json_string(out, items[i].as_str());
                proof {
                    assert(rendered.take(i + 1).drop_last() =~= rendered.take(i as int));
                    assert(rendered.take(i + 1).last() == rendered[i as int]);
                    assert(out@ =~= mid + comma_join(rendered.take(i + 1)));
                }
                i += 1;
            }
            append_literal(out, "]");
            proof {
                assert(rendered.take(rendered.len() as int) =~= rendered);
                assert(out@ =~= old(out)@ + json_of_outcome(*o));
            }
        },
        RpcOutcome::Worktrees(ws) => {
            let ghost rendered = ws@.map_values(|w: WorktreeInfo| json_of_worktree(w));
            append_literal(out, "[");
            let ghost mid = out@;
            let mut i: usize = 0;
            while i < ws.len()
                invariant
                    rendered == ws@.map_values(|w: WorktreeInfo| json_of_worktree(w)),
                    0 <= i <= ws@.len(),
                    out@ =~= mid + comma_join(rendered.take(i as int)),
                decreases ws@.len() - i,
            {
                if i > 0 {
                    append_literal(out, ",");
                }
                append_worktree(out, &ws[i]);
                proof {
                    assert(rendered.take(i + 1).drop_last() =~= rendered.take(i as int));
                    assert(rendered.take(i + 1).last() == rendered[i as int]);
                    assert(out@ =~= mid + comma_join(rendered.take(i + 1)));
                }
                i += 1;
            }
            append_literal(out, "]");
            proof {
                assert(rendered.take(rendered.len() as int) =~= rendered);
                assert(out@ =~= old(out)@ + json_of_outcome(*o));
            }
        },
        RpcOutcome::Statuses(es) => {
            let ghost rendered = es@.map_values(|e: GitStatusEntry| json_of_status(e));
            append_literal(out, "[");
            let ghost mid = out@;
            let mut i: usize = 0;
            while i < es.len()
                invariant
                    rendered == es@.map_values(|e: GitStatusEntry| json_of_status(e)),
                    0 <= i <= es@.len(),
                    out@ =~= mid + comma_join(rendered.take(i as int)),
                decreases es@.len() - i,
            {
                if i > 0 {
                    append_literal(out, ",");
                }
                append_status(out, &es[i]);
                proof {
                    assert(rendered.take(i + 1).drop_last() =~= rendered.take(i as int));
                    assert(rendered.take(i + 1).last() == rendered[i as int]);
                    assert(out@ =~= mid + comma_join(rendered.take(i + 1)));
                }
                i += 1;
            }
            append_literal(out, "]");
            proof {
                assert(rendered.take(rendered.len() as int) =~= rendered);
                assert(out@ =~= old(out)@ + json_of_outcome(*o));
            }
        },
    }
}

/// Renders one whole response object.
#[verifier::rlimit(100)]
pub fn render_response(id: &str, ok: bool, result: &Option<RpcOutcome>, error: &Option<String>) -> (
    r: String)
    ensures
        r@ == json_of_response(
            id@,
            ok,
            *result,
            match error {
                Some(e) => Some(e@),
                None => None,
            },
        ),
{
    let mut out = String::new();
    append_literal(&mut out, "{\"id\":");
    append_json_string(&mut out, id);
    append_literal(&mut out, ",\"ok\":");
    append_bool(&mut out, ok);
    append_literal(&mut out, ",\"result\":");
    match result {
        Some(o) => append_outcome(&mut out, o),
        None => append_literal(&mut out, "null"),
    }
    append_literal(&mut out, ",\"error\":");
    match error {
        Some(e) => append_json_string(&mut out, e.as_str()),
        None => append_literal(&mut out, "null"),
    }
    append_literal(&mut out, "}");
    proof {
        assert(out@ =~= json_of_response(
            id@,
            ok,
            *result,
            match error {
                Some(e) => Some(e@),
                None => None,
            },
        ));
    }
    out
}

} // verus!
