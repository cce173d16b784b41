//! Supported interface locales and the policy that selects one of them.

use vstd::prelude::*;
use vstd::string::*;

verus! {

/// A locale supported by the human-facing interface.
#[derive(Clone, Copy, Debug, PartialEq, Eq, Structural)]
pub enum Locale {
    RuRu,
    EnUs,
}

impl Default for Locale {
    fn default() -> (locale: Self)
        ensures
            locale == Locale::EnUs,
    {
        Locale::EnUs
    }
}

/// The part of a locale name before its first `.` or `@` (encoding or modifier).
pub open spec fn locale_stem(name: Seq<char>) -> Seq<char>
    decreases name.len(),
{
    if name.len() == 0 || name[0] == '.' || name[0] == '@' {
        Seq::empty()
    } else {
        seq![name[0]] + locale_stem(name.drop_first())
    }
}

/// `_` is read as `-`, and ASCII capitals as lower case letters.
pub open spec fn fold_locale_char(c: char) -> char {
    if c == '_' {
        '-'
    } else if 'A' <= c <= 'Z' {
        ((c as u32) + 32) as char
    } else {
        c
    }
}

/// The normalized spelling that a locale name is matched by.
pub open spec fn locale_key(name: Seq<char>) -> Seq<char> {
    locale_stem(name).map_values(|c: char| fold_locale_char(c))
}

/// The locale that a name denotes, if it is one of the supported spellings.
pub open spec fn locale_named(name: Seq<char>) -> Option<Locale> {
    let key = locale_key(name);
    if key == seq!['r', 'u'] || key == seq!['r', 'u', '-', 'r', 'u'] {
        Some(Locale::RuRu)
    } else if key == seq!['e', 'n'] || key == seq!['e', 'n', '-', 'u', 's'] {
        Some(Locale::EnUs)
    } else {
        None
    }
}

/// The canonical identifier of a locale.
pub open spec fn locale_id(locale: Locale) -> Seq<char> {
    match locale {
        Locale::RuRu => seq!['r', 'u', '-', 'R', 'U'],
        Locale::EnUs => seq!['e', 'n', '-', 'U', 'S'],
    }
}

/// The locale chosen from the first value given, in descending priority.
pub open spec fn resolved_locale(
    cli: Option<Seq<char>>,
    environment: Option<Seq<char>>,
    system: Option<Seq<char>>,
) -> Locale {
    let chosen = if cli is Some {
        cli
    } else if environment is Some {
        environment
    } else {
        system
    };
    match chosen {
        Some(name) => match locale_named(name) {
            Some(locale) => locale,
            None => Locale::EnUs,
        },
        None => Locale::EnUs,
    }
}

impl Locale {
    /// Normalizes one of the explicitly supported locale spellings.
    pub fn from_locale_name(value: &str) -> (locale: Option<Self>)
        ensures
            locale == locale_named(value@),
    {
        let n = value.unicode_len();
        let mut key: Vec<char> = Vec::new();
        let mut i: usize = 0;
        proof {
            assert(value@.subrange(0, 0) =~= Seq::<char>::empty());
            assert(value@.subrange(0, n as int) =~= value@);
        }
        while i < n
            invariant
                n == value@.len(),
                i <= n,
                locale_stem(value@) == value@.subrange(0, i as int) + locale_stem(
                    value@.subrange(i as int, n as int),
                ),
                key@ == value@.subrange(0, i as int).map_values(|c: char| fold_locale_char(c)),
                forall|j: int| 0 <= j < i ==> value@[j] != '.' && value@[j] != '@',
            ensures
                i <= n,
                i == n || value@[i as int] == '.' || value@[i as int] == '@',
                locale_stem(value@) == value@.subrange(0, i as int) + locale_stem(
                    value@.subrange(i as int, n as int),
                ),
                key@ == value@.subrange(0, i as int).map_values(|c: char| fold_locale_char(c)),
            decreases n - i,
        {
            let c = value.get_char(i);
            if c == '.' || c == '@' {
                break;
            }
            let folded = if c == '_' {
                '-'
            } else if 'A' <= c && c <= 'Z' {
                ((c as u8) + 32) as char
            } else {
                c
            };
            key.push(folded);
            proof {
                let rest = value@.subrange(i as int, n as int);
                assert(rest.drop_first() =~= value@.subrange(i + 1, n as int));
                assert(value@.subrange(0, i + 1) =~= value@.subrange(0, i as int).push(c));
            }
            i = i + 1;
        }
        proof {
            let rest = value@.subrange(i as int, n as int);
            assert(locale_stem(rest) =~= Seq::<char>::empty());
            assert(locale_stem(value@) =~= value@.subrange(0, i as int));
            assert(key@ =~= locale_key(value@));
        }
        if key.len() == 2 && key[0] == 'r' && key[1] == 'u' {
            assert(key@ =~= seq!['r', 'u']);
            Some(Locale::RuRu)
        } else if key.len() == 5 && key[0] == 'r' && key[1] == 'u' && key[2] == '-' && key[3] == 'r'
            && key[4] == 'u' {
            assert(key@ =~= seq!['r', 'u', '-', 'r', 'u']);
            Some(Locale::RuRu)
        } else if key.len() == 2 && key[0] == 'e' && key[1] == 'n' {
            assert(key@ =~= seq!['e', 'n']);
            Some(Locale::EnUs)
        } else if key.len() == 5 && key[0] == 'e' && key[1] == 'n' && key[2] == '-' && key[3] == 'u'
            && key[4] == 's' {
            assert(key@ =~= seq!['e', 'n', '-', 'u', 's']);
            Some(Locale::EnUs)
        } else {
            None
        }
    }

    /// Returns the canonical locale identifier.
    pub fn as_str(self) -> (id: &'static str)
        ensures
            id@ == locale_id(self),
    {
        match self {
            Locale::RuRu => {
                proof {
                    reveal_strlit("ru-RU");
                }
                "ru-RU"
            },
            Locale::EnUs => {
                proof {
                    reveal_strlit("en-US");
                }
                "en-US"
            },
        }
    }
}

/// Resolves a locale from already obtained values in descending priority:
/// the command line, then the environment, then the operating system.
pub fn resolve_locale(
    cli_locale: Option<&str>,
    environment_locale: Option<&str>,
    system_locale: Option<&str>,
) -> (locale: Locale)
    ensures
        locale == resolved_locale(
            match cli_locale {
                Some(s) => Some(s@),
                None => None,
            },
            match environment_locale {
                Some(s) => Some(s@),
                None => None,
            },
            match system_locale {
                Some(s) => Some(s@),
                None => None,
            },
        ),
{
    let chosen = match cli_locale {
        Some(value) => Some(value),
        None => match environment_locale {
            Some(value) => Some(value),
            None => system_locale,
        },
    };
    match chosen {
        Some(value) => match Locale::from_locale_name(value) {
            Some(locale) => locale,
            None => Locale::EnUs,
        },
        None => Locale::EnUs,
    }
}

/// A value supplied to a parameterized translation.
#[derive(Clone, Copy, Debug)]
pub enum LocalizationValue<'a> {
    Text(&'a str),
    Number(i64),
}

/// A count as a translation argument; counts beyond `i64` read as its maximum.
pub fn number(value: usize) -> (r: LocalizationValue<'static>)
    ensures
        r matches LocalizationValue::Number(n) && n == if value <= i64::MAX {
            value as i64
        } else {
            i64::MAX
        },
{
    if (value as u64) <= 9223372036854775807u64 {
        LocalizationValue::Number(value as i64)
    } else {
        LocalizationValue::Number(9223372036854775807i64)
    }
}

/// An error in the translation resources.
pub struct LocalizationError {
    message: String,
}

impl LocalizationError {
    /// An error that reads `message`.
    pub fn new(message: String) -> (error: Self)
        ensures
            error.message_spec() == message@,
    {
        LocalizationError { message }
    }

    pub closed spec fn message_spec(&self) -> Seq<char> {
        self.message@
    }

    /// The text of the error.
    pub fn message(&self) -> (text: String)
        ensures
            text@ == self.message_spec(),
    {
        self.message.clone()
    }
}

/// Each supported locale is recognized again by its canonical identifier.
pub proof fn lemma_locale_id_round_trip(locale: Locale)
    ensures
        locale_named(locale_id(locale)) == Some(locale),
{
    let id = locale_id(locale);
    reveal_with_fuel(locale_stem, 6);
    assert(locale_stem(id) =~= id);
    match locale {
        Locale::RuRu => assert(locale_key(id) =~= seq!['r', 'u', '-', 'r', 'u']),
        Locale::EnUs => assert(locale_key(id) =~= seq!['e', 'n', '-', 'u', 's']),
    }
}

} // verus!
