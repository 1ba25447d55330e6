//! Developers, their favourite language, and how they are described.
use vstd::prelude::*;

verus! {

/// A programming language.
#[derive(Clone, Copy, Debug, PartialEq, Eq, Structural)]
pub enum Language {
    Rust,
    Java,
    Python,
    Php,
    TypeScript,
}

impl Default for Language {
    fn default() -> (r: Self)
        ensures
            r == Language::Rust,
    {
        Language::Rust
    }
}

/// The variant name of a language, as `{:?}` prints it.
pub open spec fn language_name(l: Language) -> Seq<char> {
    match l {
        Language::Rust => seq!['R', 'u', 's', 't'],
        Language::Java => seq!['J', 'a', 'v', 'a'],
        Language::Python => seq!['P', 'y', 't', 'h', 'o', 'n'],
        Language::Php => seq!['P', 'h', 'p'],
        Language::TypeScript => seq!['T', 'y', 'p', 'e', 'S', 'c', 'r', 'i', 'p', 't'],
    }
}

impl Language {
    /// The variant name, as `{:?}` prints it.
    pub fn debug_name(&self) -> (r: &'static str)
        ensures
            r@ == language_name(*self),
    {
        match self {
            Language::Rust => {
                proof {
                    reveal_strlit("Rust");
                }
                "Rust"
            },
            Language::Java => {
                proof {
                    reveal_strlit("Java");
                }
                "Java"
            },
            Language::Python => {
                proof {
                    reveal_strlit("Python");
                }
                "Python"
            },
            Language::Php => {
                proof {
                    reveal_strlit("Php");
                }
                "Php"
            },
            Language::TypeScript => {
                proof {
                    reveal_strlit("TypeScript");
                }
                "TypeScript"
            },
        }
    }
}

/// A developer: name, age and language.
#[derive(Clone, Debug)]
pub struct Developer {
    pub name: String,
    pub age: u8,
    pub language: Language,
}

impl Default for Developer {
    fn default() -> (r: Self)
        ensures
            r.name@ == Seq::<char>::empty(),
            r.age == 0,
            r.language == Language::Rust,
    {
        Developer { name: String::new(), age: 0, language: Language::default() }
    }
}

/// The character of a decimal digit.
pub open spec fn digit_char(d: nat) -> char {
    ((d + 48) as u8) as char
}

/// The decimal digits of `n`, most significant first, without leading zeros.
pub open spec fn decimal(n: nat) -> Seq<char>
    decreases n,
{
    if n < 10 {
        seq![digit_char(n)]
    } else {
        decimal(n / 10).push(digit_char(n % 10))
    }
}

/// Appends a character to a string.
#[verifier::external_body]
fn push_char(s: &mut String, c: char)
    ensures
        final(s)@ == old(s)@.push(c),
{
    s.push(c)
}

/// Appends the decimal digits of `n`.
fn push_decimal(s: &mut String, n: u8)
    ensures
        final(s)@ == old(s)@ + decimal(n as nat),
{
    let ghost start = s@;
    if n >= 100 {
        push_char(s, ((n / 100) + 48) as char);
        push_char(s, (((n / 10) % 10) + 48) as char);
        push_char(s, ((n % 10) + 48) as char);
        assert(decimal((n / 100) as nat) == seq![digit_char((n / 100) as nat)]);
        assert(decimal((n / 10) as nat) == decimal((n / 100) as nat).push(
            digit_char(((n / 10) % 10) as nat),
        ));
        assert(decimal(n as nat) == decimal((n / 10) as nat).push(digit_char((n % 10) as nat)));
    } else if n >= 10 {
        push_char(s, ((n / 10) + 48) as char);
        push_char(s, ((n % 10) + 48) as char);
        assert(decimal((n / 10) as nat) == seq![digit_char((n / 10) as nat)]);
        assert(decimal(n as nat) == decimal((n / 10) as nat).push(digit_char((n % 10) as nat)));
    } else {
        push_char(s, (n + 48) as char);
    }
    assert(s@ =~= start + decimal(n as nat));
}

/// How a developer is described in text.
pub open spec fn description(name: Seq<char>, age: u8, language: Language) -> Seq<char> {
    name + " is "@ + decimal(age as nat) + " years old, and he is a "@ + language_name(language)
        + " developer"@
}

impl Developer {
    /// A developer with the given name and the default age and language.
    pub fn new(name: &str) -> (r: Self)
        ensures
            r.name@ == name@,
            r.age == 0,
            r.language == Language::Rust,
    {
        let base = Developer::default();
        Developer { name: name.to_owned(), ..base }
    }

    /// "<name> is <age> years old, and he is a <language> developer".
    pub fn to_string(&self) -> (r: String)
        ensures
            r@ == description(self.name@, self.age, self.language),
    {
        let mut out = String::from_str(self.name.as_str());
        out.append(" is ");
        push_decimal(&mut out, self.age);
        out.append(" years old, and he is a ");
        out.append(self.language.debug_name());
        out.append(" developer");
        out
    }
}

} // verus!
