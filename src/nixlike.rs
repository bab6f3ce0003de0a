use vstd::prelude::*;
use vstd::string::{StrSliceExecFns, StringExecFns};

use crate::names::str_eq;

verus! {

/// A JSON document, as the configuration language reads it.
#[derive(Debug)]
pub enum JsonValue {
    Null,
    Boolean(bool),
    /// A number, by its decimal text.
    Number(String),
    String(String),
    Array(Vec<JsonValue>),
    /// Members in the order in which they are written out.
    Object(Vec<(String, JsonValue)>),
}

/// `s` with every occurrence of `pat` replaced by `rep`, scanning from the left and
/// not overlapping, as `str::replace` does.
pub open spec fn replace_all(s: Seq<char>, pat: Seq<char>, rep: Seq<char>) -> Seq<char>
    decreases s.len(),
{
    if pat.len() == 0 || s.len() < pat.len() {
        s
    } else if s.take(pat.len() as int) == pat {
        rep + replace_all(s.skip(pat.len() as int), pat, rep)
    } else {
        seq![s[0]] + replace_all(s.skip(1), pat, rep)
    }
}

/// Replaces every occurrence of `pat` in `s` by `rep`.
pub fn replace_str(s: &str, pat: &str, rep: &str) -> (r: String)
    requires
        pat@.len() > 0,
    ensures
        r@ == replace_all(s@, pat@, rep@),
{
    let n = s.unicode_len();
    let m = pat.unicode_len();
    let mut out = String::new();
    let mut i: usize = 0;
    assert(s@.skip(0) =~= s@);
    while i < n
        invariant
            n == s@.len(),
            m == pat@.len(),
            m > 0,
            i <= n,
            out@ + replace_all(s@.skip(i as int), pat@, rep@) == replace_all(s@, pat@, rep@),
        decreases n - i,
    {
        let ghost rest = s@.skip(i as int);
        if m <= n - i && str_eq(s.substring_char(i, i + m), pat) {
            proof {
                assert(rest.take(m as int) =~= s@.subrange(i as int, i + m));
                assert(rest.skip(m as int) =~= s@.skip(i + m));
            }
            let ghost before = out@;
            out.append(rep);
            assert(out@ + replace_all(s@.skip(i + m), pat@, rep@) =~= before + (rep@ + replace_all(rest.skip(m as int), pat@, rep@)));
            i = i + m;
        } else {
            proof {
                if m <= n - i {
                    assert(rest.take(m as int) =~= s@.subrange(i as int, i + m));
                }
                assert(rest.skip(1) =~= s@.skip(i + 1));
                assert(rest[0] == s@[i as int]);
            }
            let ghost before = out@;
            out.append(s.substring_char(i, i + 1));
            assert(s@.subrange(i as int, i + 1) =~= seq![s@[i as int]]);
            assert(out@ + replace_all(s@.skip(i + 1), pat@, rep@) =~= before + (seq![rest[0]] + replace_all(rest.skip(1), pat@, rep@)));
            i = i + 1;
        }
    }
    assert(s@.skip(i as int) =~= Seq::<char>::empty());
    assert(out@ + Seq::<char>::empty() =~= out@);
    out
}

/// How one character is written inside a double-quoted string.
pub open spec fn escape_char(c: char) -> Seq<char> {
    if c == '\\' {
        seq!['\\', '\\']
    } else if c == '"' {
        seq!['\\', '"']
    } else if c == '\n' {
        seq!['\\', 'n']
    } else if c == '\t' {
        seq!['\\', 't']
    } else if c == '\r' {
        seq!['\\', 'r']
    } else if c == '$' {
        seq!['\\', '$']
    } else {
        seq![c]
    }
}

pub open spec fn escape_chars(s: Seq<char>) -> Seq<char>
    decreases s.len(),
{
    if s.len() == 0 {
        s
    } else {
        escape_chars(s.drop_last()) + escape_char(s.last())
    }
}

/// The double-quoted string literal of `s`.
pub open spec fn quoted(s: Seq<char>) -> Seq<char> {
    seq!['"'] + escape_chars(s) + seq!['"']
}

/// Writes `s` as a double-quoted string literal, escaping backslashes, quotes,
/// newlines, tabs, carriage returns and dollar signs.
pub fn escape_string(str: &str) -> (r: String)
    ensures
        r@ == quoted(str@),
{
    let n = str.unicode_len();
    let mut out = String::new();
    out.append("\"");
    proof {
        reveal_strlit("\"");
    }
    let mut i: usize = 0;
    assert(str@.take(0) =~= Seq::<char>::empty());
    while i < n
        invariant
            n == str@.len(),
            i <= n,
            out@ == seq!['"'] + escape_chars(str@.take(i as int)),
        decreases n - i,
    {
        let c = str.get_char(i);
        proof {
            assert(str@.take(i + 1).drop_last() =~= str@.take(i as int));
            assert(str@.take(i + 1).last() == c);
            reveal_strlit("\\\\");
            reveal_strlit("\\\"");
            reveal_strlit("\\n");
            reveal_strlit("\\t");
            reveal_strlit("\\r");
            reveal_strlit("\\$");
        }
        if c == '\\' {
            out.append("\\\\");
        } else if c == '"' {
            out.append("\\\"");
        } else if c == '\n' {
            out.append("\\n");
        } else if c == '\t' {
            out.append("\\t");
        } else if c == '\r' {
            out.append("\\r");
        } else if c == '$' {
            out.append("\\$");
        } else {
            out.append(str.substring_char(i, i + 1));
            assert(str@.subrange(i as int, i + 1) =~= seq![c]);
        }
        assert(out@ =~= seq!['"'] + escape_chars(str@.take(i + 1)));
        i = i + 1;
    }
    assert(str@.take(n as int) =~= str@);
    out.append("\"");
    out
}

/// Appends the double-quoted string literal of `str` to `out`.
pub fn write_nix_str_singleline(str: &str, out: &mut String)
    ensures
        final(out)@ == old(out)@ + quoted(str@),
{
    let e = escape_string(str);
    out.append(e.as_str());
}

/// Characters that an attribute name cannot hold unquoted.
pub open spec fn needs_quoting(c: char) -> bool {
    c == '.' || c == '\'' || c == '"' || c == '\\' || c == '\n' || c == '\t' || c == '\r' || c == '$'
}

/// How an attribute name is written: bare, or quoted where it holds a character that
/// needs quoting.
pub open spec fn identifier_text(k: Seq<char>) -> Seq<char> {
    if exists|i: int| 0 <= i < k.len() && needs_quoting(#[trigger] k[i]) {
        quoted(k)
    } else {
        k
    }
}

/// Appends the attribute name `k` to `out`.
pub fn write_identifier(k: &str, out: &mut String)
    ensures
        final(out)@ == old(out)@ + identifier_text(k@),
{
    let n = k.unicode_len();
    let mut i: usize = 0;
    let mut special = false;
    while i < n
        invariant
            n == k@.len(),
            i <= n,
            !special ==> forall|j: int| 0 <= j < i ==> !needs_quoting(#[trigger] k@[j]),
            special ==> exists|j: int| 0 <= j < k@.len() && needs_quoting(#[trigger] k@[j]),
        decreases n - i,
    {
        let c = k.get_char(i);
        if c == '.' || c == '\'' || c == '"' || c == '\\' || c == '\n' || c == '\t' || c == '\r'
            || c == '$' {
            special = true;
        }
        i = i + 1;
    }
    if special {
        write_nix_str_singleline(k, out);
    } else {
        out.append(k);
    }
}

/// Two spaces for each level.
pub open spec fn indent(level: nat) -> Seq<char>
    decreases level,
{
    if level == 0 {
        Seq::empty()
    } else {
        indent((level - 1) as nat) + seq![' ', ' ']
    }
}

/// Appends the indentation of `padding` levels.
pub fn write_padding(out: &mut String, padding: &usize)
    ensures
        final(out)@ == old(out)@ + indent(*padding as nat),
{
    let mut i: usize = 0;
    proof {
        reveal_strlit("  ");
    }
    assert(old(out)@ + indent(0) =~= old(out)@);
    while i < *padding
        invariant
            i <= *padding,
            out@ == old(out)@ + indent(i as nat),
        decreases *padding - i,
    {
        out.append("  ");
        proof {
            reveal_strlit("  ");
            assert("  "@ =~= seq![' ', ' ']);
        }
        assert(out@ =~= old(out)@ + indent((i + 1) as nat));
        i = i + 1;
    }
}

/// The body of an indented string: `''` is written `'''`, `${` is written `''${`, a tab
/// is written `''\t`, and each line starts on a new line at the given indentation.
pub open spec fn multiline_body(s: Seq<char>, level: nat) -> Seq<char> {
    let escaped = replace_all(
        replace_all(replace_all(s, "''"@, "'''"@), "${"@, "''${"@),
        "\t"@,
        "''\\t"@,
    );
    replace_all(escaped, "\n"@, "\n"@ + indent(level))
}

/// How a string is written at indentation `level`: a string that ends with a newline
/// becomes an indented string, any other a double-quoted one.
pub open spec fn nix_str_text(s: Seq<char>, level: nat) -> Seq<char> {
    if s.len() > 0 && s.last() == '\n' {
        "''"@ + "\n"@ + indent(level + 1) + multiline_body(s.drop_last(), level + 1) + "\n"@
            + indent(level) + "''"@
    } else {
        quoted(s)
    }
}

/// Appends the string `str` at indentation `padding`.
pub fn write_nix_str(str: &str, out: &mut String, padding: &mut usize)
    requires
        *old(padding) < usize::MAX,
    ensures
        final(out)@ == old(out)@ + nix_str_text(str@, *old(padding) as nat),
        *final(padding) == *old(padding),
{
    let n = str.unicode_len();
    if n > 0 && str.get_char(n - 1) == '\n' {
        let body = str.substring_char(0, n - 1);
        assert(body@ =~= str@.drop_last());
        proof {
            reveal_strlit("''");
            reveal_strlit("'''");
            reveal_strlit("${");
            reveal_strlit("''${");
            reveal_strlit("\t");
            reveal_strlit("\n");
        }
        let a = replace_str(body, "''", "'''");
        let b = replace_str(a.as_str(), "${", "''${");
        let c = replace_str(b.as_str(), "\t", "''\\t");
        *padding = *padding + 1;
        let mut line_start = String::new();
        line_start.append("\n");
        write_padding(&mut line_start, padding);
        let lines = replace_str(c.as_str(), "\n", line_start.as_str());
        out.append("''");
        out.append(line_start.as_str());
        out.append(lines.as_str());
        out.append("\n");
        *padding = *padding - 1;
        write_padding(out, padding);
        out.append("''");
        assert(final(out)@ =~= old(out)@ + nix_str_text(str@, *old(padding) as nat));
    } else {
        write_nix_str_singleline(str, out);
    }
}

/// How many items or members a list or an object holds.
pub open spec fn item_count(v: JsonValue) -> int {
    match v {
        JsonValue::Array(a) => a.len() as int,
        JsonValue::Object(o) => o.len() as int,
        _ => 0,
    }
}

/// How `v` is written at indentation `level`.
pub open spec fn nix_text(v: JsonValue, level: nat) -> Seq<char>
    decreases v, item_count(v) + 1,
{
    match v {
        JsonValue::Null => "null"@,
        JsonValue::Boolean(b) => if b {
            "true"@
        } else {
            "false"@
        },
        JsonValue::Number(n) => n@,
        JsonValue::String(s) => nix_str_text(s@, level),
        JsonValue::Array(a) => if a.len() == 0 {
            "[ ]"@
        } else {
            "[\n"@ + array_items(v, 0, level + 1) + indent(level) + "]"@
        },
        JsonValue::Object(o) => if o.len() == 0 {
            "{ }"@
        } else {
            "{\n"@ + object_items(v, 0, level + 1) + indent(level) + "}"@
        },
    }
}

/// The items of a list from the `i`-th on, one per line.
pub open spec fn array_items(v: JsonValue, i: int, level: nat) -> Seq<char>
    decreases v, item_count(v) - i,
{
    match v {
        JsonValue::Array(a) => if 0 <= i < a.len() {
            indent(level) + nix_text(a[i], level) + "\n"@ + array_items(v, i + 1, level)
        } else {
            Seq::empty()
        },
        _ => Seq::empty(),
    }
}

/// The members of an object from the `i`-th on, one per line.
pub open spec fn object_items(v: JsonValue, i: int, level: nat) -> Seq<char>
    decreases v, item_count(v) - i,
{
    match v {
        JsonValue::Object(o) => if 0 <= i < o.len() {
            indent(level) + member_text(o[i].0@, o[i].1, level) + "\n"@ + object_items(v, i + 1, level)
        } else {
            Seq::empty()
        },
        _ => Seq::empty(),
    }
}

/// A member: an object of one member is written as a dotted path.
pub open spec fn member_text(k: Seq<char>, v: JsonValue, level: nat) -> Seq<char>
    decreases v, item_count(v) + 2,
{
    identifier_text(k) + match v {
        JsonValue::Object(o) => if o.len() == 1 {
            "."@ + member_text(o[0].0@, o[0].1, level)
        } else {
            " = "@ + nix_text(v, level) + ";"@
        },
        _ => " = "@ + nix_text(v, level) + ";"@,
    }
}

/// How many levels of indentation writing `v` adds.
pub open spec fn height(v: JsonValue) -> nat
    decreases v, item_count(v) + 1,
{
    match v {
        JsonValue::String(_) => 1,
        JsonValue::Array(_) => 1 + items_height(v, 0),
        JsonValue::Object(_) => 1 + members_height(v, 0),
        _ => 0,
    }
}

pub open spec fn items_height(v: JsonValue, i: int) -> nat
    decreases v, item_count(v) - i,
{
    match v {
        JsonValue::Array(a) => if 0 <= i < a.len() {
            let h = height(a[i]);
            let t = items_height(v, i + 1);
            if h > t { h } else { t }
        } else {
            0
        },
        _ => 0,
    }
}

pub open spec fn members_height(v: JsonValue, i: int) -> nat
    decreases v, item_count(v) - i,
{
    match v {
        JsonValue::Object(o) => if 0 <= i < o.len() {
            let h = member_height(o[i].1);
            let t = members_height(v, i + 1);
            if h > t { h } else { t }
        } else {
            0
        },
        _ => 0,
    }
}

pub open spec fn member_height(v: JsonValue) -> nat
    decreases v, item_count(v) + 2,
{
    match v {
        JsonValue::Object(o) => if o.len() == 1 {
            member_height(o[0].1)
        } else {
            height(v)
        },
        _ => height(v),
    }
}

proof fn lemma_items_height(v: JsonValue, i: int, j: int)
    requires
        v is Array,
        0 <= i <= j < item_count(v),
    ensures
        height(v->Array_0[j]) <= items_height(v, i),
    decreases j - i,
{
    if i < j {
        lemma_items_height(v, i + 1, j);
    }
}

proof fn lemma_members_height(v: JsonValue, i: int, j: int)
    requires
        v is Object,
        0 <= i <= j < item_count(v),
    ensures
        member_height(v->Object_0[j].1) <= members_height(v, i),
    decreases j - i,
{
    if i < j {
        lemma_members_height(v, i + 1, j);
    }
}

/// Appends the member `k = v;`, or a dotted path where `v` is an object of one member.
fn write_nix_obj_key_buf(k: &str, v: &JsonValue, out: &mut String, padding: &mut usize)
    requires
        *old(padding) + member_height(*v) < usize::MAX,
    ensures
        final(out)@ == old(out)@ + member_text(k@, *v, *old(padding) as nat),
        *final(padding) == *old(padding),
    decreases *v, item_count(*v) + 2,
{
    proof {
        reveal_strlit(".");
        reveal_strlit(" = ");
        reveal_strlit(";");
    }
    let ghost start = out@;
    write_identifier(k, out);
    match v {
        JsonValue::Object(o) if o.len() == 1 => {
            let (k2, v2) = &o[0];
            out.append(".");
            write_nix_obj_key_buf(k2.as_str(), v2, out, padding);
            assert(out@ =~= start + member_text(k@, *v, *old(padding) as nat));
        },
        _ => {
            out.append(" = ");
            write_nix_buf(v, out, padding);
            out.append(";");
            assert(out@ =~= start + member_text(k@, *v, *old(padding) as nat));
        },
    }
}

/// Appends `value` at indentation `padding`.
fn write_nix_buf(value: &JsonValue, out: &mut String, padding: &mut usize)
    requires
        *old(padding) + height(*value) < usize::MAX,
    ensures
        final(out)@ == old(out)@ + nix_text(*value, *old(padding) as nat),
        *final(padding) == *old(padding),
    decreases *value, item_count(*value) + 1,
{
    proof {
        reveal_strlit("null");
        reveal_strlit("true");
        reveal_strlit("false");
        reveal_strlit("[ ]");
        reveal_strlit("[\n");
        reveal_strlit("]");
        reveal_strlit("{ }");
        reveal_strlit("{\n");
        reveal_strlit("}");
        reveal_strlit("\n");
    }
    let ghost start = out@;
    let ghost level = *old(padding) as nat;
    match value {
        JsonValue::Null => out.append("null"),
        JsonValue::Boolean(b) => out.append(if *b { "true" } else { "false" }),
        JsonValue::Number(n) => out.append(n.as_str()),
        JsonValue::String(s) => write_nix_str(s.as_str(), out, padding),
        JsonValue::Array(a) => {
            if a.len() == 0 {
                out.append("[ ]");
            } else {
                out.append("[\n");
                *padding = *padding + 1;
                let ghost head = out@;
                let mut i: usize = 0;
                while i < a.len()
                    invariant
                        *value is Array,
                        a == value->Array_0,
                        i <= a@.len(),
                        *padding == level + 1,
                        level + 1 + items_height(*value, 0) < usize::MAX,
                        head + array_items(*value, 0, level + 1) == out@ + array_items(
                            *value,
                            i as int,
                            level + 1,
                        ),
                    decreases a@.len() - i,
                {
                    proof {
                        lemma_items_height(*value, 0, i as int);
                    }
                    let ghost before = out@;
                    write_padding(out, padding);
                    write_nix_buf(&a[i], out, padding);
                    out.append("\n");
                    assert(before + array_items(*value, i as int, level + 1) =~= out@ + array_items(*value, i + 1, level + 1));
                    i = i + 1;
                }
                *padding = *padding - 1;
                write_padding(out, padding);
                out.append("]");
                assert(out@ =~= start + nix_text(*value, level));
            }
        },
        JsonValue::Object(o) => {
            if o.len() == 0 {
                out.append("{ }");
            } else {
                out.append("{\n");
                *padding = *padding + 1;
                let ghost head = out@;
                let mut i: usize = 0;
                while i < o.len()
                    invariant
                        *value is Object,
                        o == value->Object_0,
                        i <= o@.len(),
                        *padding == level + 1,
                        level + 1 + members_height(*value, 0) < usize::MAX,
                        head + object_items(*value, 0, level + 1) == out@ + object_items(
                            *value,
                            i as int,
                            level + 1,
                        ),
                    decreases o@.len() - i,
                {
                    proof {
                        lemma_members_height(*value, 0, i as int);
                    }
                    let ghost before = out@;
                    let (k, v) = &o[i];
                    write_padding(out, padding);
                    write_nix_obj_key_buf(k.as_str(), v, out, padding);
                    out.append("\n");
                    assert(before + object_items(*value, i as int, level + 1) =~= out@ + object_items(*value, i + 1, level + 1));
                    i = i + 1;
                }
                *padding = *padding - 1;
                write_padding(out, padding);
                out.append("}");
                assert(out@ =~= start + nix_text(*value, level));
            }
        },
    }
}

/// Writes `value` as an expression of the configuration language.
pub fn write_nix(value: &JsonValue) -> (r: String)
    requires
        height(*value) < usize::MAX,
    ensures
        r@ == nix_text(*value, 0),
{
    let mut out = String::new();
    let mut padding: usize = 0;
    write_nix_buf(value, &mut out, &mut padding);
    out
}

} // verus!
