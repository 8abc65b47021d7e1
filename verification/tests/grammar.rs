use regex::Regex;
use slatepack::{check_footer, check_header, ArmorError};

#[test]
fn check_header_accepts_the_qualified_form() {
    assert_eq!(check_header("BEGIN SLATEPACK"), Ok(()));
}

#[test]
fn check_header_accepts_the_bare_form() {
    assert_eq!(check_header("BEGINSLATEPACK"), Ok(()));
}

#[test]
fn check_header_accepts_insignificant_characters_around_it() {
    for header in [" BEGIN SLATEPACK", "BEGIN SLATEPACK ", "\n\n> BEGIN SLATEPACK\t\r\n",
        ">>>>BEGINSLATEPACK>>>>", "\tBEGINSLATEPACK", "BEGINSLATEPACK\n", "> > BEGIN SLATEPACK > >"]
    {
        assert_eq!(check_header(header), Ok(()), "{:?}", header);
    }
}

#[test]
fn check_header_accepts_any_insignificant_characters_between_the_words() {
    for header in ["BEGIN  SLATEPACK", "BEGIN\nSLATEPACK", "BEGIN>SLATEPACK", "BEGIN\r\n\t >SLATEPACK"] {
        assert_eq!(check_header(header), Ok(()), "{:?}", header);
    }
}

#[test]
fn check_header_accepts_a_format_name() {
    for header in ["BEGIN json SLATEPACK", "BEGIN v2 SLATEPACK", "BEGIN\tJSON\nSLATEPACK",
        "  BEGIN  a1B2c3  SLATEPACK  ", "BEGIN 0 SLATEPACK", "BEGIN SLATEPACK SLATEPACK",
        "BEGIN BEGIN SLATEPACK", "BEGIN>x>SLATEPACK"]
    {
        assert_eq!(check_header(header), Ok(()), "{:?}", header);
    }
}

#[test]
fn check_header_refuses_a_header_without_the_keyword() {
    for header in ["BEGIN", "BEGIN ", "BEGIN json", "BEGIN SLATEPAC", "BEGIN SLATEPACJ",
        "BEGIN slatepack", "BEGIN SLATE PACK", "BEGINSLATEPAC", "BEGIN LATEPACK"]
    {
        assert_eq!(check_header(header), Err(ArmorError::InvalidHeader), "{:?}", header);
    }
}

#[test]
fn check_header_refuses_what_is_no_token() {
    for header in ["", " ", "\n>\t", "SLATEPACK", " SLATEPACK", "END SLATEPACK", "ENDSLATEPACK",
        "begin slatepack", "BEGI SLATEPACK", "xBEGIN SLATEPACK", "BEGIN SLATEPACKx",
        "BEGIN SLATEPACK x", "x BEGIN SLATEPACK", "BEGIN.SLATEPACK", "BEGIN SLATEPACK.",
        "BEGIN SLATEPACK BEGIN SLATEPACK", "BEGINSLATEPACK SLATEPACK", "BEGINSLATEPACKSLATEPACK"]
    {
        assert_eq!(check_header(header), Err(ArmorError::InvalidHeader), "{:?}", header);
    }
}

#[test]
fn check_header_refuses_a_format_name_that_is_not_alphanumeric() {
    for header in ["BEGIN js on SLATEPACK", "BEGIN json_1 SLATEPACK", "BEGIN json-1 SLATEPACK",
        "BEGIN \u{e9} SLATEPACK", "BEGIN a.b SLATEPACK", "BEGIN \u{0} SLATEPACK",
        "BEGIN \u{661} SLATEPACK"]
    {
        assert_eq!(check_header(header), Err(ArmorError::InvalidHeader), "{:?}", header);
    }
}

#[test]
fn check_header_refuses_a_format_name_that_touches_a_word() {
    for header in ["BEGINjson SLATEPACK", "BEGIN jsonSLATEPACK", "BEGINjsonSLATEPACK",
        "BEGIN2 SLATEPACK"]
    {
        assert_eq!(check_header(header), Err(ArmorError::InvalidHeader), "{:?}", header);
    }
}

#[test]
fn check_footer_accepts_both_forms() {
    for footer in ["END SLATEPACK", "ENDSLATEPACK", " END SLATEPACK", "\n> ENDSLATEPACK \t",
        "END json SLATEPACK", "END\nSLATEPACK\n", "END END SLATEPACK"]
    {
        assert_eq!(check_footer(footer), Ok(()), "{:?}", footer);
    }
}

#[test]
fn check_footer_refuses_what_is_no_closing_token() {
    for footer in ["", " ", "END", "END ", "END SLATEPAC", "BEGIN SLATEPACK", "BEGINSLATEPACK",
        "end slatepack", "END SLATEPACK x", "xEND SLATEPACK", "END js on SLATEPACK",
        "ENDjson SLATEPACK", "END SLATEPACK.", "EN SLATEPACK", "SLATEPACK"]
    {
        assert_eq!(check_footer(footer), Err(ArmorError::InvalidFooter), "{:?}", footer);
    }
}

fn candidates() -> Vec<String> {
    let pieces = ["", " ", ">", "\t\r\n", "BEGIN", "END", "SLATEPACK", "x1", ".", "\u{e9}"];
    let mut out: Vec<String> = Vec::new();
    for a in pieces {
        for b in pieces {
            for c in pieces {
                for d in pieces {
                    for e in pieces {
                        let text = format!("{}{}{}{}{}", a, b, c, d, e);
                        if text.starts_with("BEGIN") || text.starts_with("END") {
                            out.push(format!("> {}\n", text));
                            out.push(format!("\n{}", text));
                            out.push(format!("{}\r\n>", text));
                        }
                        out.push(text);
                    }
                }
            }
        }
    }
    out
}

#[test]
fn check_header_agrees_with_the_two_patterns() {
    let qualified =
        Regex::new(r"^[>\n\r\t ]*BEGIN[>\n\r\t ]+([a-zA-Z0-9]+[>\n\r\t ]+)?SLATEPACK[>\n\r\t ]*$")
            .unwrap();
    let bare = Regex::new(r"^[>\n\r\t ]*BEGINSLATEPACK[>\n\r\t ]*$").unwrap();
    let mut accepted = 0;
    for text in candidates() {
        let expected = qualified.is_match(&text) || bare.is_match(&text);
        assert_eq!(check_header(&text).is_ok(), expected, "{:?}", text);
        if expected {
            accepted += 1;
        }
    }
    assert!(accepted > 100);
}

#[test]
fn check_footer_agrees_with_the_two_patterns() {
    let qualified =
        Regex::new(r"^[>\n\r\t ]*END[>\n\r\t ]+([a-zA-Z0-9]+[>\n\r\t ]+)?SLATEPACK[>\n\r\t ]*$")
            .unwrap();
    let bare = Regex::new(r"^[>\n\r\t ]*ENDSLATEPACK[>\n\r\t ]*$").unwrap();
    let mut accepted = 0;
    for text in candidates() {
        let expected = qualified.is_match(&text) || bare.is_match(&text);
        assert_eq!(check_footer(&text).is_ok(), expected, "{:?}", text);
        if expected {
            accepted += 1;
        }
    }
    assert!(accepted > 100);
}
