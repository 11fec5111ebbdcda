use crop_circles::{parse_token, Action, Instruction};
use regex::Regex;

fn instr(action: Action, col: isize, row: isize, diameter: isize) -> Option<Instruction> {
    Some(Instruction { action, row, col, diameter })
}

#[test]
fn parse_plain_token_is_mow() {
    assert_eq!(parse_token("jm5"), instr(Action::Mow, 9, 12, 5));
    assert_eq!(parse_token("ft17"), instr(Action::Mow, 5, 19, 17));
}

#[test]
fn parse_prefixed_tokens() {
    assert_eq!(parse_token("PLANTjm5"), instr(Action::Plant, 9, 12, 5));
    assert_eq!(parse_token("PLANTMOWjm13"), instr(Action::PlantMow, 9, 12, 13));
    assert_eq!(parse_token("PLANTgg7"), instr(Action::Plant, 6, 6, 7));
}

#[test]
fn parse_letter_bounds() {
    assert_eq!(parse_token("aa1"), instr(Action::Mow, 0, 0, 1));
    assert_eq!(parse_token("sy99"), instr(Action::Mow, 18, 24, 99));
    assert_eq!(parse_token("ta5"), None);
    assert_eq!(parse_token("az5"), None);
    assert_eq!(parse_token("sz5"), None);
    assert_eq!(parse_token("ys5"), None);
    assert_eq!(parse_token("Aa5"), None);
    assert_eq!(parse_token("`a5"), None);
}

#[test]
fn parse_digit_bounds() {
    assert_eq!(parse_token("jm0"), instr(Action::Mow, 9, 12, 0));
    assert_eq!(parse_token("jm00"), instr(Action::Mow, 9, 12, 0));
    assert_eq!(parse_token("jm07"), instr(Action::Mow, 9, 12, 7));
    assert_eq!(parse_token("jm10"), instr(Action::Mow, 9, 12, 10));
    assert_eq!(parse_token("jm"), None);
    assert_eq!(parse_token("jm123"), None);
    assert_eq!(parse_token("jm1a"), None);
    assert_eq!(parse_token("jm/"), None);
    assert_eq!(parse_token("jm:"), None);
    assert_eq!(parse_token("jm-1"), None);
    assert_eq!(parse_token("jm+1"), None);
}

#[test]
fn parse_rejects_malformed() {
    assert_eq!(parse_token(""), None);
    assert_eq!(parse_token("j"), None);
    assert_eq!(parse_token("PLANT"), None);
    assert_eq!(parse_token("PLANTMOW"), None);
    assert_eq!(parse_token("PLANTMOW5"), None);
    assert_eq!(parse_token("PLANjm5"), None);
    assert_eq!(parse_token("plantjm5"), None);
    assert_eq!(parse_token("MOWjm5"), None);
    assert_eq!(parse_token("PLANTPLANTjm5"), None);
    assert_eq!(parse_token("PLANTMOWPLANTjm5"), None);
    assert_eq!(parse_token("jm5x"), None);
    assert_eq!(parse_token("xjm5"), None);
    assert_eq!(parse_token("jm5\n"), None);
    assert_eq!(parse_token(" jm5"), None);
}

#[test]
fn parse_rejects_other_scripts() {
    assert_eq!(parse_token("jm\u{0665}"), None);
    assert_eq!(parse_token("jm\u{ff15}"), None);
    assert_eq!(parse_token("\u{e9}m5"), None);
    assert_eq!(parse_token("j\u{1f600}5"), None);
    assert_eq!(parse_token("PLANT\u{e9}jm5"), None);
}

#[test]
fn parsed_fields_are_in_range() {
    for action in ["", "PLANT", "PLANTMOW"] {
        for col in 'a'..='s' {
            for row in 'a'..='y' {
                for diam in ["1", "9", "10", "99", "05"] {
                    let token = format!("{action}{col}{row}{diam}");
                    let parsed = parse_token(&token);
                    assert!(parsed.is_some());
                    let i = parsed.unwrap();
                    assert!(i.col >= 0 && i.col <= 18);
                    assert!(i.row >= 0 && i.row <= 24);
                    assert!(i.diameter >= 1 && i.diameter <= 99);
                    assert_eq!(i.col, col as isize - 'a' as isize);
                    assert_eq!(i.row, row as isize - 'a' as isize);
                    assert_eq!(i.diameter, diam.parse::<isize>().unwrap());
                }
            }
        }
    }
}

// What the pattern of the token grammar, handed to the regex crate, makes
// of a token.
fn by_pattern(re: &Regex, token: &str) -> Option<Instruction> {
    let caps = re.captures(token)?;
    let action = Action::from_str(caps.get(1).map_or("", |m| m.as_str()));
    let col = caps.get(2)?.as_str().chars().next()? as u8 - b'a';
    let row = caps.get(3)?.as_str().chars().next()? as u8 - b'a';
    let diameter: isize = caps.get(4)?.as_str().parse().ok()?;
    Some(Instruction { action, row: row as isize, col: col as isize, diameter })
}

#[test]
fn parse_agrees_with_the_pattern() {
    let re = Regex::new(r"^(PLANTMOW|PLANT)?([a-s])([a-y])(\d{1,2})$").unwrap();
    let heads = ["", "PLANT", "PLANTMOW", "PLAN", "PLANTMO", "MOW", "plant", "PLANTMOWPLANT", "P"];
    let letters = ['a', 'j', 's', 't', 'y', 'z', 'A', '5', '`', '{', '\u{e9}'];
    let tails = [
        "", "0", "5", "9", "00", "13", "99", "100", "5x", "x5", "-1", " 5", "5 ", "\u{0665}",
        "1\u{0665}", "5\n",
    ];
    let mut accepted = 0;
    for head in heads {
        for c in letters {
            for r in letters {
                for tail in tails {
                    let token = format!("{head}{c}{r}{tail}");
                    let expected = by_pattern(&re, &token);
                    assert_eq!(parse_token(&token), expected, "token {token:?}");
                    if expected.is_some() {
                        accepted += 1;
                    }
                }
            }
        }
    }
    assert_eq!(accepted, 3 * 3 * 5 * 6);
}
