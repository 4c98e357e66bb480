use lulzcoin::cli::{
    is_whitespace, nonce_file_path, parse_command, parse_yes_no, repl_prompt, wallet_file_path,
    Command,
};

#[test]
fn repl_prompt_without_wallet() {
    assert_eq!(repl_prompt(&None), "INTERNETZ (No Wallet) >> ");
}

#[test]
fn repl_prompt_with_wallet() {
    assert_eq!(repl_prompt(&Some("savings".to_string())), "INTERNETZ (savings) >> ");
}

#[test]
fn parse_command_reads_the_first_word() {
    assert_eq!(parse_command("quit"), Command::Quit);
    assert_eq!(parse_command("  EXIT now"), Command::Quit);
    assert_eq!(parse_command("Help"), Command::Help);
    assert_eq!(parse_command("\tcreate wallet"), Command::Create);
    assert_eq!(parse_command("open\n"), Command::Open);
    assert_eq!(parse_command("opens"), Command::Unknown);
    assert_eq!(parse_command("balance"), Command::Unknown);
    assert_eq!(parse_command("\u{3000}qUiT\u{a0}x"), Command::Quit);
}

#[test]
fn parse_command_blank_lines() {
    assert_eq!(parse_command(""), Command::Blank);
    assert_eq!(parse_command("   \t "), Command::Blank);
    assert_eq!(parse_command("\u{2003}\u{85}"), Command::Blank);
}

#[test]
fn parse_command_agrees_with_lower_casing() {
    for line in ["QUIT", "Exit", "hElP", "CREATE", "oPeN", "quİt", "ＱＵＩＴ", "open-x", "k"] {
        let atoms: Vec<&str> = line.split_whitespace().collect();
        let word = atoms[0].to_lowercase();
        let expected = match word.as_ref() {
            "quit" | "exit" => Command::Quit,
            "help" => Command::Help,
            "create" => Command::Create,
            "open" => Command::Open,
            _ => Command::Unknown,
        };
        assert_eq!(parse_command(line), expected, "{}", line);
    }
}

#[test]
fn parse_yes_no_answers() {
    assert_eq!(parse_yes_no("Y"), Some(true));
    assert_eq!(parse_yes_no(" y \n"), Some(true));
    assert_eq!(parse_yes_no("n"), Some(false));
    assert_eq!(parse_yes_no("\tN"), Some(false));
    assert_eq!(parse_yes_no("yes"), None);
    assert_eq!(parse_yes_no(""), None);
    assert_eq!(parse_yes_no("  "), None);
    assert_eq!(parse_yes_no("y n"), None);
}

#[test]
fn whitespace_matches_std() {
    for v in 0..0x3100u32 {
        if let Some(c) = char::from_u32(v) {
            assert_eq!(is_whitespace(c), c.is_whitespace(), "{:x}", v);
        }
    }
}

#[test]
fn wallet_paths() {
    assert_eq!(wallet_file_path("main"), "./.lulzcoin/main.lulz");
    assert_eq!(nonce_file_path("./.lulzcoin/main.lulz"), "./.lulzcoin/main.lulz.nonce");
}
