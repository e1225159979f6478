//! Compact JSON text of a value, as `serde_json::to_string` writes it: no
//! white space, members in order, strings quoted with `"` and `\` escaped,
//! the short escapes for backspace, form feed, newline, carriage return and
//! tab, `\u00XX` (lower-case hex) for the other control characters, and
//! every other character as it is.
use vstd::prelude::*;
use vstd::string::StrSliceExecFns;
use crate::json::{Json, JsonView, json_view};
use crate::text::{join, join_seq, views};

verus! {

/// One hexadecimal digit, lower case.
pub open spec fn hex_text(d: nat) -> Seq<char> {
    if d == 0 { "0"@ } else if d == 1 { "1"@ } else if d == 2 { "2"@ } else if d == 3 { "3"@ }
    else if d == 4 { "4"@ } else if d == 5 { "5"@ } else if d == 6 { "6"@ } else if d == 7 { "7"@ }
    else if d == 8 { "8"@ } else if d == 9 { "9"@ } else if d == 10 { "a"@ } else if d == 11 { "b"@ }
    else if d == 12 { "c"@ } else if d == 13 { "d"@ } else if d == 14 { "e"@ } else { "f"@ }
}

fn hex(d: u32) -> (r: &'static str)
    ensures
        r@ == hex_text(d as nat),
{
    if d == 0 { "0" } else if d == 1 { "1" } else if d == 2 { "2" } else if d == 3 { "3" }
    else if d == 4 { "4" } else if d == 5 { "5" } else if d == 6 { "6" } else if d == 7 { "7" }
    else if d == 8 { "8" } else if d == 9 { "9" } else if d == 10 { "a" } else if d == 11 { "b" }
    else if d == 12 { "c" } else if d == 13 { "d" } else if d == 14 { "e" } else { "f" }
}

/// The JSON string escape of one character; `None` when it stands as it is.
pub open spec fn escape_of(c: char) -> Option<Seq<char>> {
    if c == '"' {
        Some("\\\""@)
    } else if c == '\\' {
        Some("\\\\"@)
    } else if c == '\n' {
        Some("\\n"@)
    } else if c == '\r' {
        Some("\\r"@)
    } else if c == '\t' {
        Some("\\t"@)
    } else if c == '\u{8}' {
        Some("\\b"@)
    } else if c == '\u{c}' {
        Some("\\f"@)
    } else if (c as u32) < 0x20 {
        Some("\\u00"@ + hex_text((c as u32 / 16) as nat) + hex_text((c as u32 % 16) as nat))
    } else {
        None
    }
}

/// The characters of `s`, escaped for a JSON string.
pub open spec fn escaped(s: Seq<char>) -> Seq<char>
    decreases s.len(),
{
    if s.len() == 0 {
        seq![]
    } else {
        escaped(s.drop_last()) + match escape_of(s.last()) {
            Some(e) => e,
            None => seq![s.last()],
        }
    }
}

/// `s` as a JSON string literal.
pub open spec fn quoted(s: Seq<char>) -> Seq<char> {
    "\""@ + escaped(s) + "\""@
}

/// The compact JSON text of `j`.
pub open spec fn json_text(j: JsonView) -> Seq<char>
    decreases j,
{
    match j {
        JsonView::Null => "null"@,
        JsonView::Bool(b) => if b {
            "true"@
        } else {
            "false"@
        },
        JsonView::Number(t) => t,
        JsonView::Str(s) => quoted(s),
        JsonView::Array(items) => "["@ + join_seq(item_texts(items), ","@) + "]"@,
        JsonView::Object(members) => "{"@ + join_seq(member_texts(members), ","@) + "}"@,
    }
}

/// The JSON text of each item.
pub open spec fn item_texts(items: Seq<JsonView>) -> Seq<Seq<char>>
    decreases items,
{
    Seq::new(
        items.len(),
        |i: int|
            if 0 <= i < items.len() {
                json_text(items[i])
            } else {
                seq![]
            },
    )
}

/// The JSON text of each member: its quoted key, a colon and its value.
pub open spec fn member_texts(members: Seq<(Seq<char>, JsonView)>) -> Seq<Seq<char>>
    decreases members,
{
    Seq::new(
        members.len(),
        |i: int|
            if 0 <= i < members.len() {
                quoted(members[i].0) + ":"@ + json_text(members[i].1)
            } else {
                seq![]
            },
    )
}

fn escape_char(c: char) -> (r: Option<String>)
    ensures
        match r {
            Some(e) => escape_of(c) == Some(e@),
            None => escape_of(c) is None,
        },
{
    if c == '"' {
        Some(String::from_str("\\\""))
    } else if c == '\\' {
        Some(String::from_str("\\\\"))
    } else if c == '\n' {
        Some(String::from_str("\\n"))
    } else if c == '\r' {
        Some(String::from_str("\\r"))
    } else if c == '\t' {
        Some(String::from_str("\\t"))
    } else if c == '\u{8}' {
        Some(String::from_str("\\b"))
    } else if c == '\u{c}' {
        Some(String::from_str("\\f"))
    } else if (c as u32) < 0x20 {
        let code = c as u32;
        Some(String::from_str("\\u00").concat(hex(code / 16)).concat(hex(code % 16)))
    } else {
        None
    }
}

/// `s` as a JSON string literal.
pub fn quote(s: &str) -> (r: String)
    ensures
        r@ == quoted(s@),
{
    let n = s.unicode_len();
    let mut out = String::from_str("\"");
    let mut i: usize = 0;
    while i < n
        invariant
            n == s@.len(),
            i <= n,
            out@ == "\""@ + escaped(s@.take(i as int)),
        decreases n - i,
    {
        let c = s.get_char(i);
        assert(s@.take(i + 1).drop_last() =~= s@.take(i as int));
        assert(s@.take(i + 1).last() == c);
        match escape_char(c) {
            Some(e) => {
                out.append(e.as_str());
            },
            None => {
                let one = s.substring_char(i, i + 1);
                assert(one@ =~= seq![c]);
                out.append(one);
            },
        }
        assert(out@ =~= "\""@ + escaped(s@.take(i + 1)));
        i = i + 1;
    }
    assert(s@.take(n as int) =~= s@);
    out.append("\"");
    out
}

/// The compact JSON text of `j`.
#[verifier::loop_isolation(false)]
pub fn to_text(j: &Json) -> (r: String)
    ensures
        r@ == json_text(j@),
    decreases j,
{
    match j {
        Json::Null => String::from_str("null"),
        Json::Bool(b) => if *b {
            String::from_str("true")
        } else {
            String::from_str("false")
        },
        Json::Number(t) => t.clone(),
        Json::Str(s) => quote(s.as_str()),
        Json::Array(v) => {
            let ghost items = match j@ {
                JsonView::Array(items) => items,
                _ => seq![],
            };
            assert(items.len() == v@.len());
            let mut parts: Vec<String> = Vec::new();
            let n = v.len();
            let mut i: usize = 0;
            while i < n
                invariant
                    n == v@.len(),
                    i <= n,
                    parts@.len() == i,
                    forall|k: int| 0 <= k < i ==> #[trigger] parts@[k]@ == json_text(items[k]),
                decreases n - i,
            {
                assert(decreases_to!(*j => *v));
                assert(decreases_to!(*v => v@));
                assert(decreases_to!(v@ => v@[i as int]));
                assert(items[i as int] == json_view(v@[i as int]));
                parts.push(to_text(&v[i]));
                i = i + 1;
            }
            let body = join(&parts, ",");
            assert(views(parts@) =~= item_texts(items));
            String::from_str("[").concat(body.as_str()).concat("]")
        },
        Json::Object(members) => {
            let ghost ms = match j@ {
                JsonView::Object(ms) => ms,
                _ => seq![],
            };
            assert(ms.len() == members@.len());
            let mut parts: Vec<String> = Vec::new();
            let n = members.len();
            let mut i: usize = 0;
            while i < n
                invariant
                    n == members@.len(),
                    i <= n,
                    parts@.len() == i,
                    forall|k: int|
                        0 <= k < i ==> #[trigger] parts@[k]@ == quoted(ms[k].0) + ":"@ + json_text(
                            ms[k].1,
                        ),
                decreases n - i,
            {
                assert(decreases_to!(*j => *members));
                assert(decreases_to!(*members => members@));
                assert(decreases_to!(members@ => members@[i as int]));
                assert(decreases_to!(members@[i as int] => members@[i as int].1));
                assert(ms[i as int] == (members@[i as int].0@, json_view(members@[i as int].1)));
                let value = to_text(&members[i].1);
                let part = quote(members[i].0.as_str()).concat(":").concat(value.as_str());
                parts.push(part);
                i = i + 1;
            }
            let body = join(&parts, ",");
            assert(views(parts@) =~= member_texts(ms));
            String::from_str("{").concat(body.as_str()).concat("}")
        },
    }
}

/// A character that JSON needs no escape for.
pub open spec fn plain_char(c: char) -> bool {
    c != '"' && c != '\\' && (c as u32) >= 0x20
}

/// Escaping works character by character.
pub proof fn law_escaping_is_per_character(a: Seq<char>, b: Seq<char>)
    ensures
        escaped(a + b) == escaped(a) + escaped(b),
    decreases b.len(),
{
    if b.len() == 0 {
        assert(a + b =~= a);
        assert(escaped(a) + escaped(b) =~= escaped(a));
    } else {
        assert((a + b).drop_last() =~= a + b.drop_last());
        law_escaping_is_per_character(a, b.drop_last());
        assert((a + b).last() == b.last());
    }
}

/// Text without quotes, backslashes or control characters is written as
/// it is; anything else is escaped with a backslash, so no quote or control
/// character survives unescaped.
pub proof fn law_plain_text_is_kept(s: Seq<char>)
    ensures
        (forall|i: int| 0 <= i < s.len() ==> plain_char(#[trigger] s[i])) ==> escaped(s) == s,
        forall|c: char| #[trigger] escape_of(c) is Some <==> !plain_char(c),
        forall|c: char| #[trigger] escape_of(c) matches Some(e) ==> e.len() >= 2 && e[0] == '\\',
    decreases s.len(),
{
    if s.len() > 0 {
        law_plain_text_is_kept(s.drop_last());
        if forall|i: int| 0 <= i < s.len() ==> plain_char(#[trigger] s[i]) {
            assert forall|i: int| 0 <= i < s.drop_last().len() implies plain_char(#[trigger] s.drop_last()[i]) by {
                assert(s.drop_last()[i] == s[i]);
            }
            assert(plain_char(s[s.len() - 1]));
            assert(escaped(s) =~= s);
        }
    }
    reveal_strlit("\\\"");
    reveal_strlit("\\\\");
    reveal_strlit("\\n");
    reveal_strlit("\\r");
    reveal_strlit("\\t");
    reveal_strlit("\\b");
    reveal_strlit("\\f");
    reveal_strlit("\\u00");
    assert forall|c: char| #[trigger] escape_of(c) is Some <==> !plain_char(c) by {
        assert('\n' as u32 == 10 && '\r' as u32 == 13 && '\t' as u32 == 9 && '\u{8}' as u32 == 8 && '\u{c}' as u32 == 12);
        assert('"' as u32 == 34 && '\\' as u32 == 92);
    }
    assert forall|c: char| #[trigger] escape_of(c) is Some implies escape_of(c)->Some_0.len() >= 2
        && escape_of(c)->Some_0[0] == '\\' by {
        if (c as u32) < 0x20 && c != '\n' && c != '\r' && c != '\t' && c != '\u{8}' && c != '\u{c}' && c != '"' && c != '\\' {
            let e = "\\u00"@ + hex_text((c as u32 / 16) as nat) + hex_text((c as u32 % 16) as nat);
            assert(e[0] == "\\u00"@[0]);
        }
    }
}

} // verus!
