use crate::damage::{DamageInstance, DamageType};
use crate::decimal::{decimal_text, signed_decimal};
use colored::Colorize;
use vstd::prelude::*;
use vstd::string::StringExecFns;

verus! {

/// The escape character that starts a terminal control sequence.
pub open spec fn escape() -> char {
    '\x1B'
}

/// Whether `s` holds no escape character.
pub open spec fn plain_text(s: Seq<char>) -> bool {
    forall|i: int| 0 <= i < s.len() ==> s[i] != escape()
}

/// `s` between the control sequence that selects the graphic rendition
/// `code` and the one that resets it.
pub open spec fn styled(code: Seq<char>, s: Seq<char>) -> Seq<char> {
    seq![escape(), '['] + code + seq!['m'] + s + seq![escape(), '[', '0', 'm']
}

/// Whether `out` is `s` as a terminal paints it with `code`: `s` itself where
/// colouring is switched off, and `s` styled with `code` where it is on.
pub open spec fn painted(code: Seq<char>, s: Seq<char>, out: Seq<char>) -> bool {
    out == s || out == styled(code, s)
}

/// Relies on colored's `red` and `italic`, shown through `ColoredString`'s
/// `Display`: the text comes back unchanged while colouring is off, and
/// between the codes for italic red while it is on.
#[verifier::external_body]
fn red_italic(s: &str) -> (r: String)
    ensures
        plain_text(s@) ==> painted(seq!['3', ';', '3', '1'], s@, r@),
{
    s.red().italic().to_string()
}

/// Relies on colored's `magenta` and `italic`, shown through `ColoredString`'s
/// `Display`: the text comes back unchanged while colouring is off, and
/// between the codes for italic magenta while it is on.
#[verifier::external_body]
fn magenta_italic(s: &str) -> (r: String)
    ensures
        plain_text(s@) ==> painted(seq!['3', ';', '3', '5'], s@, r@),
{
    s.magenta().italic().to_string()
}

/// Relies on colored's `yellow` and `italic`, shown through `ColoredString`'s
/// `Display`: the text comes back unchanged while colouring is off, and
/// between the codes for italic yellow while it is on.
#[verifier::external_body]
fn yellow_italic(s: &str) -> (r: String)
    ensures
        plain_text(s@) ==> painted(seq!['3', ';', '3', '3'], s@, r@),
{
    s.yellow().italic().to_string()
}

/// Relies on colored's `clear`, shown through `ColoredString`'s `Display`: a
/// string without style or colour is written as it is.
#[verifier::external_body]
fn cleared(s: &str) -> (r: String)
    ensures
        r@ == s@,
{
    s.clear().to_string()
}

/// The rendition code of the colour and style that mark a damage type.
pub open spec fn damage_code(t: DamageType) -> Seq<char> {
    match t {
        DamageType::Piercing => seq!['3', ';', '3', '1'],
        DamageType::Slashing => seq!['3', ';', '3', '5'],
        DamageType::Blunt => seq!['3', ';', '3', '3'],
    }
}

/// The name of a damage type.
pub open spec fn damage_name(t: DamageType) -> Seq<char> {
    match t {
        DamageType::Piercing => "Piercing"@,
        DamageType::Slashing => "Slashing"@,
        DamageType::Blunt => "Blunt"@,
    }
}

/// The sign shown before the amount of a damage event: `+` for a positive
/// amount, nothing otherwise.
pub open spec fn sign_text(amount: int) -> Seq<char> {
    if amount > 0 { seq!['+'] } else { Seq::empty() }
}

proof fn lemma_decimal_plain(i: int)
    ensures
        plain_text(decimal_text(i)),
{
    crate::decimal::lemma_decimal_text_ascii_digits(i);
}

impl DamageType {
    /// `s` in the colour and style of this damage type.
    pub fn format(&self, s: &str) -> (r: String)
        ensures
            plain_text(s@) ==> painted(damage_code(*self), s@, r@),
    {
        match self {
            DamageType::Piercing => red_italic(s),
            DamageType::Slashing => magenta_italic(s),
            DamageType::Blunt => yellow_italic(s),
        }
    }

    /// The name of this damage type, in its colour and style.
    pub fn colored_name(&self) -> (r: String)
        ensures
            painted(damage_code(*self), damage_name(*self), r@),
    {
        let name: &str = match self {
            DamageType::Piercing => {
                proof { reveal_strlit("Piercing"); }
                "Piercing"
            },
            DamageType::Slashing => {
                proof { reveal_strlit("Slashing"); }
                "Slashing"
            },
            DamageType::Blunt => {
                proof { reveal_strlit("Blunt"); }
                "Blunt"
            },
        };
        assert(plain_text(name@));
        self.format(name)
    }
}

impl DamageInstance {
    /// The event as a line of text: the sign, the amount and the type's name,
    /// each in the colour and style of the damage type, as in `+10 Piercing`.
    pub fn colored_text(&self) -> (r: String)
        ensures
            exists|sign: Seq<char>, amount: Seq<char>, name: Seq<char>|
                {
                    &&& r@ == sign + amount + seq![' '] + name
                    &&& if self.amount > 0 {
                        painted(damage_code(self.damage_type), sign_text(self.amount as int), sign)
                    } else {
                        sign == sign_text(self.amount as int)
                    }
                    &&& painted(damage_code(self.damage_type), decimal_text(self.amount as int), amount)
                    &&& painted(damage_code(self.damage_type), damage_name(self.damage_type), name)
                },
    {
        let sign: String = if self.amount > 0 {
            proof {
                reveal_strlit("+");
                assert("+"@ =~= sign_text(self.amount as int));
            }
            self.damage_type.format("+")
        } else {
            proof {
                reveal_strlit("");
                assert(""@ =~= sign_text(self.amount as int));
            }
            cleared("")
        };
        let digits = signed_decimal(self.amount);
        proof { lemma_decimal_plain(self.amount as int); }
        let amount = self.damage_type.format(digits.as_str());
        let name = self.damage_type.colored_name();
        proof { reveal_strlit(" "); }
        let ghost sign_view = sign@;
        let r = {
            let mut out = sign;
            out.append(amount.as_str());
            out.append(" ");
            out.append(name.as_str());
            out
        };
        assert(r@ =~= sign_view + amount@ + seq![' '] + name@);
        assert({
            &&& r@ == sign_view + amount@ + seq![' '] + name@
            &&& if self.amount > 0 {
                painted(damage_code(self.damage_type), sign_text(self.amount as int), sign_view)
            } else {
                sign_view == sign_text(self.amount as int)
            }
            &&& painted(damage_code(self.damage_type), decimal_text(self.amount as int), amount@)
            &&& painted(damage_code(self.damage_type), damage_name(self.damage_type), name@)
        });
        r
    }
}

} // verus!
