//! Emoji shortcodes such as `:grinning:` in text become the emoji itself.
use vstd::prelude::*;
use crate::text::push_str;

verus! {

/// The emoji that a shortcode names, if any.
pub uninterp spec fn emoji_of(code: Seq<char>) -> Option<Seq<char>>;

/// Relies on `emojis::get_by_shortcode` and `Emoji::as_str`: the emoji that a
/// shortcode names, which depends on the shortcode alone.
#[verifier::external_body]
fn emoji_for(code: &str) -> (r: Option<String>)
    ensures
        match r {
            Some(e) => emoji_of(code@) == Some(e@),
            None => emoji_of(code@) is None,
        },
{
    emojis::get_by_shortcode(code).map(|e| e.as_str().to_string())
}

/// The characters a shortcode is made of.
pub open spec fn is_code_char(c: char) -> bool {
    ('a' <= c <= 'z') || ('A' <= c <= 'Z') || ('0' <= c <= '9') || c == '+' || c == '-' || c == '_'
}

fn code_char(c: char) -> (r: bool)
    ensures
        r == is_code_char(c),
{
    ('a' <= c && c <= 'z') || ('A' <= c && c <= 'Z') || ('0' <= c && c <= '9') || c == '+' || c
        == '-' || c == '_'
}

/// The end of the run of shortcode characters of `s` that starts at `from`.
pub open spec fn code_run(s: Seq<char>, from: int) -> int
    decreases s.len() - from,
{
    if 0 <= from < s.len() && is_code_char(s[from]) {
        code_run(s, from + 1)
    } else {
        from
    }
}

pub proof fn lemma_code_run(s: Seq<char>, from: int)
    requires
        0 <= from,
    ensures
        from <= code_run(s, from),
        from <= s.len() ==> code_run(s, from) <= s.len(),
    decreases s.len() - from,
{
    if 0 <= from < s.len() && is_code_char(s[from]) {
        lemma_code_run(s, from + 1);
    }
}

/// Whether a shortcode `:code:` opens at `i`: a colon, one or more shortcode
/// characters, and a colon.
pub open spec fn shortcode_at(s: Seq<char>, i: int) -> bool {
    let e = code_run(s, i + 1);
    0 <= i < s.len() && s[i] == ':' && e > i + 1 && e < s.len() && s[e] == ':'
}

/// What stands for a shortcode: its emoji, or the shortcode itself.
pub open spec fn replacement(code: Seq<char>) -> Seq<char> {
    match emoji_of(code) {
        Some(e) => e,
        None => seq![':'] + code + seq![':'],
    }
}

/// `s` from `i` on, with each shortcode found from left to right replaced;
/// the search goes on after the closing colon of each shortcode.
pub open spec fn emojify_from(s: Seq<char>, i: int) -> Seq<char>
    decreases s.len() - i,
{
    if i < 0 || i >= s.len() {
        seq![]
    } else if shortcode_at(s, i) {
        replacement(s.subrange(i + 1, code_run(s, i + 1))) + emojify_from(s, code_run(s, i + 1) + 1)
    } else {
        seq![s[i]] + emojify_from(s, i + 1)
    }
}

pub open spec fn emojify(s: Seq<char>) -> Seq<char> {
    emojify_from(s, 0)
}

/// The text processor that replaces emoji shortcodes.
pub struct EmojiConverter;

impl EmojiConverter {
    /// Replaces each `:shortcode:` that names an emoji by the emoji.
    pub fn process_text(&self, text: &str) -> (r: String)
        ensures
            r@ == emojify(text@),
    {
        let n = text.unicode_len();
        let mut acc = String::new();
        let mut i: usize = 0;
        while i < n
            invariant
                n == text@.len(),
                i <= n,
                emojify(text@) == acc@ + emojify_from(text@, i as int),
            decreases n - i,
        {
            let c = text.get_char(i);
            let mut matched = false;
            if c == ':' {
                let mut e = i + 1;
                proof {
                    lemma_code_run(text@, i + 1);
                }
                while e < n && code_char(text.get_char(e))
                    invariant
                        n == text@.len(),
                        i < n,
                        i + 1 <= e <= n,
                        code_run(text@, i + 1) == code_run(text@, e as int),
                    decreases n - e,
                {
                    e = e + 1;
                }
                assert(code_run(text@, e as int) == e as int);
                if e > i + 1 && e < n && text.get_char(e) == ':' {
                    let code = text.substring_char(i + 1, e);
                    match emoji_for(code) {
                        Some(emoji) => push_str(&mut acc, emoji.as_str()),
                        None => {
                            push_str(&mut acc, ":");
                            push_str(&mut acc, code);
                            push_str(&mut acc, ":");
                            proof {
                                reveal_strlit(":");
                            }
                        },
                    }
                    i = e + 1;
                    matched = true;
                }
            }
            if !matched {
                let ghost before = acc@;
                crate::text::push_char(&mut acc, c);
                assert(acc@ =~= before + seq![c]);
                i = i + 1;
            }
        }
        acc
    }
}

} // verus!
