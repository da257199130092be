//! Interface language: which locale a language preference resolves to.
use vstd::prelude::*;

use crate::model::LanguagePref;
use crate::text::{ascii_lower, ascii_lower_char};

verus! {

/// English, also the fallback.
pub const EN: &'static str = "en";

/// Chinese; simplified and traditional system languages both land here.
pub const ZH_CN: &'static str = "zh-CN";

/// Japanese.
pub const JA: &'static str = "ja";

/// The locale in effect.
#[derive(Debug, Clone, Copy, PartialEq, Eq)]
pub struct Locale(pub &'static str);

/// Separators between the subtags of a language tag (BCP 47 and POSIX forms).
pub open spec fn is_tag_sep(c: char) -> bool {
    c == '-' || c == '_' || c == '.' || c == '@'
}

/// Length of the primary language subtag: up to the first separator.
pub open spec fn primary_len(tag: Seq<char>) -> nat
    decreases tag.len(),
{
    if tag.len() == 0 || is_tag_sep(tag[0]) {
        0
    } else {
        1 + primary_len(tag.drop_first())
    }
}

/// The primary subtag, ASCII-lowered.
pub open spec fn primary_lower(tag: Seq<char>) -> Seq<char> {
    tag.take(primary_len(tag) as int).map_values(|c: char| ascii_lower(c))
}

/// The locale a language tag maps to: `zh*` Chinese, `ja*` Japanese, `en*`
/// English, anything else none.
pub open spec fn spec_supported(tag: Seq<char>) -> Option<&'static str> {
    let lang = primary_lower(tag);
    if lang == seq!['z', 'h'] {
        Some(ZH_CN)
    } else if lang == seq!['j', 'a'] {
        Some(JA)
    } else if lang == seq!['e', 'n'] {
        Some(EN)
    } else {
        None
    }
}

/// The first supported tag of the system list, in order; English without one.
pub open spec fn first_supported(system: Seq<String>) -> &'static str
    decreases system.len(),
{
    if system.len() == 0 {
        EN
    } else {
        match spec_supported(system[0]@) {
            Some(code) => code,
            None => first_supported(system.drop_first()),
        }
    }
}

/// The locale for a preference; `System` follows the system's preferred
/// languages.
pub open spec fn spec_resolve(pref: LanguagePref, system: Seq<String>) -> &'static str {
    match pref {
        LanguagePref::English => EN,
        LanguagePref::Chinese => ZH_CN,
        LanguagePref::Japanese => JA,
        LanguagePref::System => first_supported(system),
    }
}

proof fn lemma_primary_len(tag: Seq<char>, p: int)
    requires
        0 <= p <= tag.len(),
        forall|j: int| 0 <= j < p ==> !is_tag_sep(#[trigger] tag[j]),
        p == tag.len() || is_tag_sep(tag[p]),
    ensures
        primary_len(tag) == p,
    decreases p,
{
    if p > 0 {
        assert forall|j: int| 0 <= j < p - 1 implies !is_tag_sep(#[trigger] tag.drop_first()[j]) by {
            assert(tag.drop_first()[j] == tag[j + 1]);
        }
        lemma_primary_len(tag.drop_first(), p - 1);
    }
}

/// Whether the lowered primary subtag `tag[..n]` is exactly `a` followed by `b`.
fn primary_is(tag: &str, n: usize, a: char, b: char) -> (r: bool)
    requires
        n <= tag@.len(),
    ensures
        r == (tag@.take(n as int).map_values(|c: char| ascii_lower(c)) == seq![a, b]),
{
    let ghost lowered = tag@.take(n as int).map_values(|c: char| ascii_lower(c));
    if n != 2 {
        assert(lowered.len() == n);
        return false;
    }
    let c0 = ascii_lower_char(tag.get_char(0));
    let c1 = ascii_lower_char(tag.get_char(1));
    let r = c0 == a && c1 == b;
    proof {
        if r {
            assert(lowered =~= seq![a, b]);
        } else {
            if lowered == seq![a, b] {
                assert(lowered[0] == a);
                assert(lowered[1] == b);
            }
        }
    }
    r
}

fn is_tag_sep_char(c: char) -> (r: bool)
    ensures
        r == is_tag_sep(c),
{
    c == '-' || c == '_' || c == '.' || c == '@'
}

/// The locale a language tag maps to (see [`spec_supported`]).
pub fn supported(tag: &str) -> (r: Option<&'static str>)
    ensures
        r == spec_supported(tag@),
{
    let len = tag.unicode_len();
    let mut n: usize = 0;
    while n < len && !is_tag_sep_char(tag.get_char(n))
        invariant
            len == tag@.len(),
            n <= len,
            forall|j: int| 0 <= j < n ==> !is_tag_sep(#[trigger] tag@[j]),
        decreases len - n,
    {
        n = n + 1;
    }
    proof {
        lemma_primary_len(tag@, n as int);
    }
    if primary_is(tag, n, 'z', 'h') {
        Some(ZH_CN)
    } else if primary_is(tag, n, 'j', 'a') {
        Some(JA)
    } else if primary_is(tag, n, 'e', 'n') {
        Some(EN)
    } else {
        None
    }
}

/// Resolves a language preference; `system` is the system's preferred
/// language tags, most preferred first.
pub fn resolve(pref: LanguagePref, system: &Vec<String>) -> (code: &'static str)
    ensures
        code == spec_resolve(pref, system@),
{
    match pref {
        LanguagePref::English => EN,
        LanguagePref::Chinese => ZH_CN,
        LanguagePref::Japanese => JA,
        LanguagePref::System => {
            let mut i: usize = 0;
            assert(system@.skip(0) =~= system@);
            while i < system.len()
                invariant
                    pref == LanguagePref::System,
                    i <= system@.len(),
                    first_supported(system@) == first_supported(system@.skip(i as int)),
                decreases system@.len() - i,
            {
                let s = &system[i];
                match supported(s.as_str()) {
                    Some(code) => {
                        proof {
                            assert(system@.skip(i as int)[0] == system@[i as int]);
                            assert(first_supported(system@.skip(i as int)) == code);
                        }
                        return code;
                    },
                    None => {},
                }
                proof {
                    assert(system@.skip(i as int).drop_first() =~= system@.skip(i + 1));
                }
                i = i + 1;
            }
            proof {
                assert(system@.skip(i as int) =~= Seq::<String>::empty());
            }
            EN
        },
    }
}

} // verus!
