//! Escaping of text for the formats of the views.

use crate::text::chars_of;
use vstd::prelude::*;

verus! {

/// A format with characters of its own.
#[derive(Clone, Copy, Debug, PartialEq, Eq, Structural)]
pub enum Escape {
    /// A quoted string of the DOT language.
    Dot,
    /// Inline Markdown.
    Markdown,
    /// HTML text and attributes.
    Html,
    /// XML text and attributes.
    Xml,
    /// JSON inside a script element.
    Script,
}

impl Escape {
    /// What stands for a character.
    pub open spec fn of(self, c: char) -> Seq<char> {
        match self {
            Escape::Dot => if c == '\\' {
                "\\\\"@
            } else if c == '"' {
                "\\\""@
            } else if c == '\r' {
                ""@
            } else if c == '\n' {
                "\\n"@
            } else {
                seq![c]
            },
            Escape::Markdown => if c == '\\' {
                "\\\\"@
            } else if c == '`' {
                "\\`"@
            } else if c == '*' {
                "\\*"@
            } else if c == '_' {
                "\\_"@
            } else if c == '\r' {
                ""@
            } else if c == '\n' {
                " "@
            } else {
                seq![c]
            },
            Escape::Html => if c == '&' {
                "&amp;"@
            } else if c == '<' {
                "&lt;"@
            } else if c == '>' {
                "&gt;"@
            } else if c == '"' {
                "&quot;"@
            } else if c == '\'' {
                "&#39;"@
            } else {
                seq![c]
            },
            Escape::Xml => if c == '&' {
                "&amp;"@
            } else if c == '<' {
                "&lt;"@
            } else if c == '>' {
                "&gt;"@
            } else if c == '"' {
                "&quot;"@
            } else if c == '\'' {
                "&apos;"@
            } else {
                seq![c]
            },
            Escape::Script => if c == '&' {
                "\\u0026"@
            } else if c == '<' {
                "\\u003c"@
            } else if c == '>' {
                "\\u003e"@
            } else if c == '\u{2028}' {
                "\\u2028"@
            } else if c == '\u{2029}' {
                "\\u2029"@
            } else {
                seq![c]
            },
        }
    }

    fn replacement(self, c: char) -> (r: Option<&'static str>)
        ensures
            r matches Some(s) ==> s@ == self.of(c),
            r is None ==> self.of(c) == seq![c],
    {
        match self {
            Escape::Dot => if c == '\\' {
                Some("\\\\")
            } else if c == '"' {
                Some("\\\"")
            } else if c == '\r' {
                Some("")
            } else if c == '\n' {
                Some("\\n")
            } else {
                None
            },
            Escape::Markdown => if c == '\\' {
                Some("\\\\")
            } else if c == '`' {
                Some("\\`")
            } else if c == '*' {
                Some("\\*")
            } else if c == '_' {
                Some("\\_")
            } else if c == '\r' {
                Some("")
            } else if c == '\n' {
                Some(" ")
            } else {
                None
            },
            Escape::Html => if c == '&' {
                Some("&amp;")
            } else if c == '<' {
                Some("&lt;")
            } else if c == '>' {
                Some("&gt;")
            } else if c == '"' {
                Some("&quot;")
            } else if c == '\'' {
                Some("&#39;")
            } else {
                None
            },
            Escape::Xml => if c == '&' {
                Some("&amp;")
            } else if c == '<' {
                Some("&lt;")
            } else if c == '>' {
                Some("&gt;")
            } else if c == '"' {
                Some("&quot;")
            } else if c == '\'' {
                Some("&apos;")
            } else {
                None
            },
            Escape::Script => if c == '&' {
                Some("\\u0026")
            } else if c == '<' {
                Some("\\u003c")
            } else if c == '>' {
                Some("\\u003e")
            } else if c == '\u{2028}' {
                Some("\\u2028")
            } else if c == '\u{2029}' {
                Some("\\u2029")
            } else {
                None
            },
        }
    }
}

/// A text with each character replaced by what stands for it.
pub open spec fn escaped(format: Escape, s: Seq<char>) -> Seq<char>
    decreases s.len(),
{
    if s.len() == 0 {
        Seq::empty()
    } else {
        escaped(format, s.drop_last()) + format.of(s.last())
    }
}

/// A text with each character replaced by what stands for it.
pub fn escape(format: Escape, s: &str) -> (r: String)
    ensures
        r@ == escaped(format, s@),
{
    let v = chars_of(s);
    let mut out = String::new();
    let mut i: usize = 0;
    while i < v.len()
        invariant
            i <= v@.len(),
            out@ == escaped(format, v@.take(i as int)),
        decreases v@.len() - i,
    {
        assert(v@.take(i + 1).drop_last() =~= v@.take(i as int));
        let ghost was = out@;
        match format.replacement(v[i]) {
            Some(text) => out.push_str(text),
            None => {
                out.push(v[i]);
                assert(out@ =~= was + seq![v@[i as int]]);
            },
        }
        i += 1;
    }
    assert(v@.take(i as int) =~= v@);
    out
}

/// JSON that can stand inside a script element.
pub fn script_safe_json(json: &str) -> (r: String)
    ensures
        r@ == escaped(Escape::Script, json@),
{
    escape(Escape::Script, json)
}

/// No character that could end a script element or a line of a script is left in JSON that was
/// escaped for one.
pub proof fn script_text_cannot_break_out(s: Seq<char>)
    ensures
        forall|i: int|
            0 <= i < escaped(Escape::Script, s).len() ==> !breaks_out(
                #[trigger] escaped(Escape::Script, s)[i],
            ),
    decreases s.len(),
{
    if s.len() > 0 {
        script_text_cannot_break_out(s.drop_last());
        reveal_strlit("\\u0026");
        reveal_strlit("\\u003c");
        reveal_strlit("\\u003e");
        reveal_strlit("\\u2028");
        reveal_strlit("\\u2029");
        let head = escaped(Escape::Script, s.drop_last());
        let tail = Escape::Script.of(s.last());
        assert forall|i: int| 0 <= i < tail.len() implies !breaks_out(#[trigger] tail[i]) by {
        }
        assert forall|i: int| 0 <= i < escaped(Escape::Script, s).len() implies !breaks_out(
            #[trigger] escaped(Escape::Script, s)[i],
        ) by {
            if i < head.len() {
                assert(escaped(Escape::Script, s)[i] == head[i]);
            } else {
                assert(escaped(Escape::Script, s)[i] == tail[i - head.len()]);
            }
        }
    }
}

/// Whether a character could end a script element or a line of a script.
pub open spec fn breaks_out(c: char) -> bool {
    c == '&' || c == '<' || c == '>' || c == '\u{2028}' || c == '\u{2029}'
}

/// No angle bracket or quote is left in a text that was escaped for HTML or XML.
pub proof fn markup_text_cannot_break_out(format: Escape, s: Seq<char>)
    requires
        format == Escape::Html || format == Escape::Xml,
    ensures
        forall|i: int|
            0 <= i < escaped(format, s).len() ==> !is_markup(#[trigger] escaped(format, s)[i]),
    decreases s.len(),
{
    if s.len() > 0 {
        markup_text_cannot_break_out(format, s.drop_last());
        reveal_strlit("&amp;");
        reveal_strlit("&lt;");
        reveal_strlit("&gt;");
        reveal_strlit("&quot;");
        reveal_strlit("&#39;");
        reveal_strlit("&apos;");
        let head = escaped(format, s.drop_last());
        let tail = format.of(s.last());
        assert forall|i: int| 0 <= i < tail.len() implies !is_markup(#[trigger] tail[i]) by {}
        assert forall|i: int| 0 <= i < escaped(format, s).len() implies !is_markup(
            #[trigger] escaped(format, s)[i],
        ) by {
            if i < head.len() {
                assert(escaped(format, s)[i] == head[i]);
            } else {
                assert(escaped(format, s)[i] == tail[i - head.len()]);
            }
        }
    }
}

/// Whether a character delimits markup.
pub open spec fn is_markup(c: char) -> bool {
    c == '<' || c == '>' || c == '"' || c == '\''
}

/// Escaping two texts one behind the other is escaping each; and a single character stands for
/// itself but for those that its format gives a meaning.
pub proof fn texts_are_escaped_one_by_one(format: Escape, a: Seq<char>, b: Seq<char>)
    ensures
        escaped(format, a + b) == escaped(format, a) + escaped(format, b),
        escaped(format, Seq::empty()) == Seq::<char>::empty(),
    decreases b.len(),
{
    if b.len() == 0 {
        assert(a + b =~= a);
        assert(escaped(format, a) + escaped(format, b) =~= escaped(format, a));
    } else {
        texts_are_escaped_one_by_one(format, a, b.drop_last());
        assert((a + b).drop_last() =~= a + b.drop_last());
        assert(escaped(format, a + b) =~= escaped(format, a) + escaped(format, b));
    }
}

/// What stands for each character that has a meaning of its own: a backslash before quotes,
/// backslashes and marks, entities in markup, code points in scripts. Returns go, and line breaks
/// become a space or an escape.
pub proof fn marked_characters_are_escaped(c: char)
    ensures
        ({
            let dot = escaped(Escape::Dot, seq![c]);
            &&& c == '"' ==> dot == seq!['\\', '"']
            &&& c == '\\' ==> dot == seq!['\\', '\\']
            &&& c == '\n' ==> dot == seq!['\\', 'n']
            &&& c == '\r' ==> dot == Seq::<char>::empty()
            &&& c != '"' && c != '\\' && c != '\n' && c != '\r' ==> dot == seq![c]
        }),
        ({
            let md = escaped(Escape::Markdown, seq![c]);
            &&& c == '\\' || c == '`' || c == '*' || c == '_' ==> md == seq!['\\', c]
            &&& c == '\n' ==> md == seq![' ']
            &&& c == '\r' ==> md == Seq::<char>::empty()
            &&& c != '\\' && c != '`' && c != '*' && c != '_' && c != '\n' && c != '\r' ==> md
                == seq![c]
        }),
        ({
            let html = escaped(Escape::Html, seq![c]);
            let xml = escaped(Escape::Xml, seq![c]);
            &&& c == '&' ==> html == "&amp;"@ && xml == "&amp;"@
            &&& c == '<' ==> html == "&lt;"@ && xml == "&lt;"@
            &&& c == '>' ==> html == "&gt;"@ && xml == "&gt;"@
            &&& c == '"' ==> html == "&quot;"@ && xml == "&quot;"@
            &&& c == '\'' ==> html == "&#39;"@ && xml == "&apos;"@
            &&& c != '&' && c != '<' && c != '>' && c != '"' && c != '\'' ==> html == seq![c] && xml
                == seq![c]
        }),
        ({
            let script = escaped(Escape::Script, seq![c]);
            &&& c == '&' ==> script == "\\u0026"@
            &&& c == '<' ==> script == "\\u003c"@
            &&& c == '>' ==> script == "\\u003e"@
            &&& c == '\u{2028}' ==> script == "\\u2028"@
            &&& c == '\u{2029}' ==> script == "\\u2029"@
            &&& c != '&' && c != '<' && c != '>' && c != '\u{2028}' && c != '\u{2029}' ==> script
                == seq![c]
        }),
{
    let s = seq![c];
    assert(s.drop_last() =~= Seq::<char>::empty());
    reveal_strlit("");
    reveal_strlit(" ");
    reveal_strlit("\\\\");
    reveal_strlit("\\\"");
    reveal_strlit("\\n");
    reveal_strlit("\\`");
    reveal_strlit("\\*");
    reveal_strlit("\\_");
    let none = Seq::<char>::empty();
    assert(escaped(Escape::Dot, none) =~= none && escaped(Escape::Markdown, none) =~= none
        && escaped(Escape::Html, none) =~= none && escaped(Escape::Xml, none) =~= none && escaped(
        Escape::Script,
        none,
    ) =~= none);
    assert(escaped(Escape::Dot, s) =~= Escape::Dot.of(c));
    assert(escaped(Escape::Markdown, s) =~= Escape::Markdown.of(c));
    assert(escaped(Escape::Html, s) =~= Escape::Html.of(c));
    assert(escaped(Escape::Xml, s) =~= Escape::Xml.of(c));
    assert(escaped(Escape::Script, s) =~= Escape::Script.of(c));
    if c == '"' {
        assert(Escape::Dot.of(c) =~= seq!['\\', '"']);
    }
    if c == '\\' {
        assert(Escape::Dot.of(c) =~= seq!['\\', '\\']);
        assert(Escape::Markdown.of(c) =~= seq!['\\', '\\']);
    }
    if c == '\n' {
        assert(Escape::Dot.of(c) =~= seq!['\\', 'n']);
        assert(Escape::Markdown.of(c) =~= seq![' ']);
    }
    if c == '\r' {
        assert(Escape::Dot.of(c) =~= Seq::<char>::empty());
        assert(Escape::Markdown.of(c) =~= Seq::<char>::empty());
    }
    if c == '`' || c == '*' || c == '_' {
        assert(Escape::Markdown.of(c) =~= seq!['\\', c]);
    }
}

} // verus!
