//! Language selection for user-facing text, and text carried in both
//! supported languages.

use vstd::prelude::*;
use vstd::string::StringExecFns;

verus! {

/// The two languages SysMedic speaks.
#[derive(Debug, Clone, Copy, PartialEq, Eq, Structural)]
pub enum Lang {
    En,
    Ar,
}

/// Whether `s` begins with `prefix`.
pub open spec fn seq_starts_with(s: Seq<char>, prefix: Seq<char>) -> bool {
    prefix.len() <= s.len() && s.subrange(0, prefix.len() as int) == prefix
}

/// The language a POSIX locale string (`LANG`/`LC_ALL`) selects.
pub open spec fn lang_for_locale(locale: Seq<char>) -> Lang {
    if seq_starts_with(locale, seq!['a', 'r']) {
        Lang::Ar
    } else {
        Lang::En
    }
}

impl Lang {
    /// Pick a language from a POSIX locale string: Arabic for any locale
    /// beginning with `ar`, English otherwise.
    pub fn from_locale(locale: &str) -> (lang: Lang)
        ensures
            lang == lang_for_locale(locale@),
    {
        let n = locale.unicode_len();
        if n >= 2 && locale.get_char(0) == 'a' && locale.get_char(1) == 'r' {
            assert(locale@.subrange(0, 2) =~= seq!['a', 'r']);
            Lang::Ar
        } else {
            proof {
                if n >= 2 {
                    assert(locale@.subrange(0, 2)[0] == locale@[0]);
                    assert(locale@.subrange(0, 2)[1] == locale@[1]);
                }
            }
            Lang::En
        }
    }
}

/// A short piece of user-facing text carried in both supported languages.
#[derive(Debug, Clone)]
pub struct LocalizedText {
    pub en: String,
    pub ar: String,
}

impl LocalizedText {
    pub fn new(en: String, ar: String) -> (t: LocalizedText)
        ensures
            t.en@ == en@,
            t.ar@ == ar@,
    {
        LocalizedText { en, ar }
    }

    /// The text in `lang`.
    pub open spec fn text_in(&self, lang: Lang) -> Seq<char> {
        match lang {
            Lang::En => self.en@,
            Lang::Ar => self.ar@,
        }
    }

    /// The text in `lang`.
    pub fn get(&self, lang: Lang) -> (s: &str)
        ensures
            s@ == self.text_in(lang),
    {
        match lang {
            Lang::En => self.en.as_str(),
            Lang::Ar => self.ar.as_str(),
        }
    }
}

/// `s` between a first-strong isolate and a pop-directional isolate, so
/// that machine text (paths, device names, numbers) keeps its own direction
/// inside a right-to-left sentence.
pub open spec fn isolated(s: Seq<char>) -> Seq<char> {
    seq!['\u{2068}'] + s + seq!['\u{2069}']
}

/// Wrap `s` in bidi isolates (see [`isolated`]).
pub fn isolate(s: &str) -> (r: String)
    ensures
        r@ == isolated(s@),
{
    let mut r = String::new();
    crate::text::push_char(&mut r, '\u{2068}');
    crate::text::push_str(&mut r, s);
    crate::text::push_char(&mut r, '\u{2069}');
    r
}

} // verus!
