use anatomy::damage::{DamageInstance, DamageType};
use anatomy::decimal::{signed_decimal, unsigned_decimal};
use colored::Colorize;

#[test]
fn test_colors() {
    assert_eq!(
        DamageInstance {
            amount: -10,
            damage_type: DamageType::Slashing
        }
        .colored_text(),
        format!(
            "{}{} {}",
            "".clear(),
            "-10".magenta().italic(),
            "Slashing".magenta().italic()
        )
    );
}

#[test]
fn positive_amount_gets_a_sign() {
    assert_eq!(
        DamageInstance { amount: 100, damage_type: DamageType::Piercing }.colored_text(),
        format!("{}{} {}", "+".red().italic(), "100".red().italic(), "Piercing".red().italic())
    );
}

#[test]
fn names_in_their_colours() {
    assert_eq!(DamageType::Blunt.colored_name(), "Blunt".yellow().italic().to_string());
    assert_eq!(DamageType::Piercing.colored_name(), "Piercing".red().italic().to_string());
    assert_eq!(DamageType::Slashing.format("x"), "x".magenta().italic().to_string());
}

#[test]
fn decimal_text() {
    assert_eq!(signed_decimal(-2147483648), "-2147483648");
    assert_eq!(signed_decimal(0), "0");
    assert_eq!(signed_decimal(905), "905");
    assert_eq!(unsigned_decimal(18446744073709551616), "18446744073709551616");
}
