use sieve::{
    Capability, Clear, Collation, Comparator, CompileError, ErrorType, Fcc, FileInto,
    ForEveryPart, Instruction, Keep, LexError, Match, MatchType, Notify, Piece, SetVariable,
    Sieve, StringItem, Test, TestExpr, Token, Tokenizer, Variable, Word,
};

fn text(s: &str) -> StringItem {
    StringItem::Text(s.as_bytes().to_vec())
}

fn tokens(src: &str) -> Vec<Token> {
    let mut t = Tokenizer::new(src.as_bytes());
    let mut out = Vec::new();
    loop {
        let info = t.next();
        let last = matches!(info.token, Token::Eof | Token::Invalid(_));
        out.push(info.token);
        if last {
            return out;
        }
    }
}

fn error(script: &str) -> CompileError {
    Sieve::compile(script.as_bytes()).unwrap_err()
}

fn program(script: &str) -> Vec<Instruction> {
    Sieve::compile(script.as_bytes()).unwrap().instructions().clone()
}

#[test]
fn capability_literals_map_to_their_variants() {
    let known = [
        ("envelope", Capability::Envelope),
        ("envelope-dsn", Capability::EnvelopeDsn),
        ("envelope-deliverby", Capability::EnvelopeDeliverBy),
        ("fileinto", Capability::FileInto),
        ("encoded-character", Capability::EncodedCharacter),
        ("comparator-elbonia", Capability::Comparator(Comparator::Elbonia)),
        ("comparator-i;octet", Capability::Comparator(Comparator::Octet)),
        ("comparator-i;ascii-casemap", Capability::Comparator(Comparator::AsciiCaseMap)),
        ("comparator-i;ascii-numeric", Capability::Comparator(Comparator::AsciiNumeric)),
        ("body", Capability::Body),
        ("convert", Capability::Convert),
        ("copy", Capability::Copy),
        ("relational", Capability::Relational),
        ("date", Capability::Date),
        ("index", Capability::Index),
        ("duplicate", Capability::Duplicate),
        ("variables", Capability::Variables),
        ("editheader", Capability::EditHeader),
        ("foreverypart", Capability::ForEveryPart),
        ("mime", Capability::Mime),
        ("replace", Capability::Replace),
        ("enclose", Capability::Enclose),
        ("extracttext", Capability::ExtractText),
        ("enotify", Capability::Enotify),
        ("redirect-dsn", Capability::RedirectDsn),
        ("redirect-deliverby", Capability::RedirectDeliverBy),
        ("environment", Capability::Environment),
        ("reject", Capability::Reject),
        ("ereject", Capability::Ereject),
        ("extlists", Capability::ExtLists),
        ("subaddress", Capability::SubAddress),
        ("vacation", Capability::Vacation),
        ("vacation-seconds", Capability::VacationSeconds),
        ("fcc", Capability::Fcc),
        ("mailbox", Capability::Mailbox),
        ("mailboxid", Capability::MailboxId),
        ("mboxmetadata", Capability::MboxMetadata),
        ("servermetadata", Capability::ServerMetadata),
        ("special-use", Capability::SpecialUse),
        ("imap4flags", Capability::Imap4Flags),
        ("ihave", Capability::Ihave),
        ("imapsieve", Capability::ImapSieve),
        ("include", Capability::Include),
        ("regex", Capability::Regex),
        ("spamtest", Capability::SpamTest),
        ("spamtestplus", Capability::SpamTestPlus),
        ("virustest", Capability::VirusTest),
    ];
    for (literal, capability) in known {
        assert_eq!(capability.to_name(), literal);
        assert_eq!(Capability::parse(literal.as_bytes().to_vec()), capability, "{}", literal);
    }
    assert_eq!(Capability::Other("x y".to_string()).to_name(), "x y");
    assert_eq!(
        Capability::Comparator(Comparator::Other("i;unicode".to_string())).to_name(),
        "comparator-i;unicode"
    );
}

#[test]
fn unknown_capability_names_are_kept_as_written() {
    assert_eq!(
        Capability::parse(b"frobnicate".to_vec()),
        Capability::Other("frobnicate".to_string())
    );
    assert_eq!(Capability::parse(b"FileInto".to_vec()), Capability::Other("FileInto".to_string()));
    assert_eq!(Capability::parse(b"".to_vec()), Capability::Other(String::new()));
    assert_eq!(
        Capability::parse(b"comparator-i;unicode".to_vec()),
        Capability::Comparator(Comparator::Other("i;unicode".to_string()))
    );
    assert_eq!(
        Capability::parse(b"comparator-".to_vec()),
        Capability::Comparator(Comparator::Other(String::new()))
    );
}

#[test]
fn capability_name_that_is_not_utf8_is_repaired() {
    assert_eq!(
        Capability::parse(vec![b'a', 0xff, b'b']),
        Capability::Other("a\u{fffd}b".to_string())
    );
}

#[test]
fn tokens_of_a_script() {
    assert_eq!(
        tokens("require [\"fileinto\", \"copy\"]; # comment\nif size :over 10K { /* block\n comment */ keep; }"),
        vec![
            Token::Identifier(Word::Require),
            Token::BracketOpen,
            Token::String(b"fileinto".to_vec()),
            Token::Comma,
            Token::String(b"copy".to_vec()),
            Token::BracketClose,
            Token::Semicolon,
            Token::Identifier(Word::If),
            Token::Identifier(Word::Size),
            Token::Tag(Word::Over),
            Token::Number(10 * 1024),
            Token::CurlyOpen,
            Token::Identifier(Word::Keep),
            Token::Semicolon,
            Token::CurlyClose,
            Token::Eof,
        ]
    );
}

#[test]
fn numbers_take_one_size_suffix() {
    assert_eq!(tokens("0 7 2k 3M 1G"), vec![
        Token::Number(0),
        Token::Number(7),
        Token::Number(2048),
        Token::Number(3 * 1024 * 1024),
        Token::Number(1024 * 1024 * 1024),
        Token::Eof,
    ]);
    assert_eq!(tokens("18446744073709551615"), vec![Token::Number(u64::MAX), Token::Eof]);
    assert_eq!(
        tokens("18446744073709551616"),
        vec![Token::Unknown(b"18446744073709551616".to_vec()), Token::Eof]
    );
    assert_eq!(tokens("17179869184G"), vec![Token::Unknown(b"17179869184G".to_vec()), Token::Eof]);
    assert_eq!(tokens("10KK"), vec![Token::Unknown(b"10KK".to_vec()), Token::Eof]);
}

#[test]
fn words_are_read_whatever_their_case() {
    assert_eq!(
        tokens("FileInto :COPY elsif nonsense :what ?"),
        vec![
            Token::Identifier(Word::FileInto),
            Token::Tag(Word::Copy),
            Token::Identifier(Word::ElsIf),
            Token::Unknown(b"nonsense".to_vec()),
            Token::Unknown(b":what".to_vec()),
            Token::Unknown(b"?".to_vec()),
            Token::Eof,
        ]
    );
}

#[test]
fn quoted_strings_take_escapes() {
    assert_eq!(
        tokens(r#""a\"b\\c" """#),
        vec![Token::String(b"a\"b\\c".to_vec()), Token::String(vec![]), Token::Eof]
    );
    assert_eq!(tokens(r#""a\nb""#), vec![Token::Invalid(LexError::InvalidEscape)]);
    assert_eq!(tokens("\"abc"), vec![Token::Invalid(LexError::UnterminatedString)]);
    let mut t = Tokenizer::new(b"\"a\xffb\"");
    assert_eq!(t.next().token, Token::Invalid(LexError::InvalidUtf8));
}

#[test]
fn multi_line_strings_end_at_a_dot() {
    assert_eq!(
        tokens("text: # note\r\nline one\r\n..dot\r\n.\r\nkeep"),
        vec![
            Token::String(b"line one\r\n.dot\r\n".to_vec()),
            Token::Identifier(Word::Keep),
            Token::Eof,
        ]
    );
    assert_eq!(tokens("text:\nabc\n"), vec![Token::Invalid(LexError::UnterminatedString)]);
    assert_eq!(tokens("text: x"), vec![
        Token::Unknown(b"text:".to_vec()),
        Token::Unknown(b"x".to_vec()),
        Token::Eof,
    ]);
}

#[test]
fn end_of_script_is_read_again_and_again() {
    let mut t = Tokenizer::new(b"keep");
    assert_eq!(t.peek().token, Token::Identifier(Word::Keep));
    assert_eq!(t.next().token, Token::Identifier(Word::Keep));
    assert_eq!(t.next().token, Token::Eof);
    assert_eq!(t.next().token, Token::Eof);
    assert_eq!(t.peek().offset, 4);
}

#[test]
fn string_lists_are_read() {
    let mut t = Tokenizer::new(b"[\"a\", \"b\"] \"c\" \"d\" [\"e\" \"f\"]");
    assert_eq!(t.parse_strings(false), Ok(vec![text("a"), text("b")]));
    assert_eq!(t.parse_strings(true), Ok(vec![text("c")]));
    assert_eq!(t.parse_strings(false).unwrap_err().kind, ErrorType::UnexpectedToken("'['"));
    assert_eq!(t.parse_strings(false).unwrap_err().kind, ErrorType::UnexpectedToken("',' or ']'"));
    let mut t = Tokenizer::new(b"keep");
    assert_eq!(t.unwrap_string().unwrap_err().kind, ErrorType::ExpectedString);
}

#[test]
fn notify_takes_its_tags_in_any_order() {
    let mut t = Tokenizer::new(
        b":message \"m\" :from \"f1\" :options [\"o1\", \"o2\"] :importance \"2\" :from \"f2\" \"mailto:u@x\" ;",
    );
    assert_eq!(
        t.parse_notify(),
        Ok(Notify {
            from: Some(text("f2")),
            importance: Some(text("2")),
            options: vec![text("o1"), text("o2")],
            message: Some(text("m")),
            fcc: None,
            method: text("mailto:u@x"),
        })
    );
    assert_eq!(t.next().token, Token::Semicolon);
}

#[test]
fn notify_with_fcc() {
    let mut t = Tokenizer::new(
        b":specialuse \"\\\\Sent\" :fcc \"Sent\" :mailboxid \"id1\" :flags [\"\\\\Seen\"] :create \"mailto:u@x\"",
    );
    assert_eq!(
        t.parse_notify(),
        Ok(Notify {
            from: None,
            importance: None,
            options: vec![],
            message: None,
            fcc: Some(Fcc {
                fcc: text("Sent"),
                create: true,
                flags: vec![text("\\Seen")],
                special_use: Some(text("\\Sent")),
                mailbox_id: Some(text("id1")),
            }),
            method: text("mailto:u@x"),
        })
    );
}

#[test]
fn notify_without_a_method_is_an_error() {
    let mut t = Tokenizer::new(b":from \"a\" ;");
    assert_eq!(
        t.parse_notify(),
        Err(CompileError { kind: ErrorType::UnexpectedToken("string"), line_num: 1, line_pos: 11 })
    );
    let mut t = Tokenizer::new(b":from \"a\"");
    assert_eq!(t.parse_notify().unwrap_err().kind, ErrorType::UnexpectedToken("more input"));
    assert_eq!(error("notify;").kind, ErrorType::UnexpectedToken("string"));
}

#[test]
fn notify_with_an_fcc_option_but_no_fcc_is_an_error() {
    let mut t = Tokenizer::new(b":create \"mailto:u@x\";");
    assert_eq!(
        t.parse_notify(),
        Err(CompileError {
            kind: ErrorType::InvalidCombination("missing ':fcc' tag"),
            line_num: 1,
            line_pos: 21,
        })
    );
    for tag in [":flags [\"a\"]", ":specialuse \"a\"", ":mailboxid \"a\""] {
        let script = format!("notify {} \"mailto:u@x\";", tag);
        assert_eq!(error(&script).kind, ErrorType::InvalidCombination("missing ':fcc' tag"));
    }
}

#[test]
fn an_if_is_lowered_to_forward_jumps() {
    let leaf = |test: Test| Instruction::Test(TestExpr { test, is_not: false });
    assert_eq!(
        program("if true { keep; } elsif false { discard; } else { stop; }"),
        vec![
            leaf(Test::True),
            Instruction::Jz(4),
            Instruction::Keep(Keep { flags: vec![] }),
            Instruction::Jmp(9),
            leaf(Test::False),
            Instruction::Jz(8),
            Instruction::Discard,
            Instruction::Jmp(9),
            Instruction::Stop,
            Instruction::Return,
        ]
    );
    assert_eq!(
        program("if true { keep; }"),
        vec![
            leaf(Test::True),
            Instruction::Jz(4),
            Instruction::Keep(Keep { flags: vec![] }),
            Instruction::Jmp(4),
            Instruction::Return,
        ]
    );
}

#[test]
fn combined_tests_are_lowered_with_short_cuts() {
    let leaf = |test: Test, is_not: bool| Instruction::Test(TestExpr { test, is_not });
    let exists = |name: &str| Test::Exists { names: vec![text(name)] };
    assert_eq!(
        program("if anyof (exists \"a\", not exists \"b\", true) { keep; }"),
        vec![
            leaf(exists("a"), false),
            Instruction::Jnz(5),
            leaf(exists("b"), true),
            Instruction::Jnz(5),
            leaf(Test::True, false),
            Instruction::Jz(8),
            Instruction::Keep(Keep { flags: vec![] }),
            Instruction::Jmp(8),
            Instruction::Return,
        ]
    );
    // `not` turns `allof` into `anyof` of the opposites.
    assert_eq!(
        program("if not allof (exists \"a\", not exists \"b\") { keep; }"),
        vec![
            leaf(exists("a"), true),
            Instruction::Jnz(3),
            leaf(exists("b"), false),
            Instruction::Jz(6),
            Instruction::Keep(Keep { flags: vec![] }),
            Instruction::Jmp(6),
            Instruction::Return,
        ]
    );
}

#[test]
fn a_loop_is_lowered_with_its_exits() {
    assert_eq!(
        program(
            "require \"foreverypart\"; foreverypart :name \"outer\" { foreverypart { break; break :name \"outer\"; } keep; }"
        ),
        vec![
            Instruction::Require(vec![Capability::ForEveryPart]),
            Instruction::ForEveryPartPush,
            Instruction::ForEveryPart(ForEveryPart { jz_pos: 12 }),
            Instruction::ForEveryPartPush,
            Instruction::ForEveryPart(ForEveryPart { jz_pos: 9 }),
            Instruction::Jmp(9),
            Instruction::ForEveryPartPop(1),
            Instruction::Jmp(12),
            Instruction::Jmp(4),
            Instruction::ForEveryPartPop(1),
            Instruction::Keep(Keep { flags: vec![] }),
            Instruction::Jmp(2),
            Instruction::ForEveryPartPop(1),
            Instruction::Return,
        ]
    );
}

#[test]
fn every_jump_of_a_compiled_script_goes_forward_or_closes_a_loop() {
    let script = "require [\"foreverypart\", \"variables\", \"fileinto\"]; \
        if anyof (true, allof (false, not true)) { set \"a\" \"1\"; foreverypart { if exists \"x\" { break; } elsif true { keep; } } } \
        elsif header :contains [\"a\", \"b\"] \"c\" { fileinto \"${a}\"; } else { foreverypart { foreverypart { break; } } }";
    let program = program(script);
    for (i, instruction) in program.iter().enumerate() {
        match instruction {
            Instruction::Jz(t) | Instruction::Jnz(t) => assert!(*t > i && *t <= program.len()),
            Instruction::ForEveryPart(f) => assert!(f.jz_pos > i && f.jz_pos <= program.len()),
            Instruction::Jmp(t) => {
                assert!(*t != i && *t <= program.len());
                if *t < i {
                    assert!(matches!(program[*t], Instruction::ForEveryPart(_)));
                }
            }
            _ => {}
        }
    }
    assert!(program.len() > 20);
}

#[test]
fn commands_compile_to_their_instructions() {
    assert_eq!(
        program(
            "require [\"fileinto\", \"copy\", \"mailbox\", \"imap4flags\", \"mailboxid\", \"special-use\"]; \
             fileinto :copy :create :flags [\"\\\\Seen\"] :mailboxid \"m1\" :specialuse \"\\\\Junk\" \"Junk\"; \
             keep :flags \"\\\\Flagged\"; redirect :copy \"a@b\"; setflag [\"x\", \"y\"];"
        ),
        vec![
            Instruction::Require(vec![
                Capability::FileInto,
                Capability::Copy,
                Capability::Mailbox,
                Capability::Imap4Flags,
                Capability::MailboxId,
                Capability::SpecialUse,
            ]),
            Instruction::FileInto(FileInto {
                copy: true,
                create: true,
                folder: text("Junk"),
                flags: vec![text("\\Seen")],
                mailbox_id: Some(text("m1")),
                special_use: Some(text("\\Junk")),
            }),
            Instruction::Keep(Keep { flags: vec![text("\\Flagged")] }),
            Instruction::Redirect(sieve::Redirect { copy: true, address: text("a@b") }),
            Instruction::SetFlag(vec![text("x"), text("y")]),
            Instruction::Return,
        ]
    );
}

#[test]
fn tests_compile_to_their_instructions() {
    let how = |match_type, collation, key: &str| Match { match_type, collation, keys: vec![text(key)] };
    assert_eq!(
        program(
            "require [\"envelope\", \"duplicate\"]; \
             if allof (header :contains :comparator \"i;octet\" \"To\" \"x\", \
                       envelope \"from\" \"a@b\", size :under 2K, \
                       duplicate :handle \"h\" :uniqueid \"u\" :seconds 60 :last) { stop; }"
        )[1..8],
        [
            Instruction::Test(TestExpr {
                test: Test::Header {
                    names: vec![text("To")],
                    how: how(MatchType::Contains, Collation::Octet, "x"),
                },
                is_not: false,
            }),
            Instruction::Jz(8),
            Instruction::Test(TestExpr {
                test: Test::Envelope {
                    slots: vec![sieve::Envelope::From],
                    how: how(MatchType::Is, Collation::AsciiCaseMap, "a@b"),
                },
                is_not: false,
            }),
            Instruction::Jz(8),
            Instruction::Test(TestExpr { test: Test::Size { over: false, limit: 2048 }, is_not: false }),
            Instruction::Jz(8),
            Instruction::Test(TestExpr {
                test: Test::Duplicate {
                    handle: Some(text("h")),
                    unique_id: Some(text("u")),
                    seconds: Some(60),
                    last: true,
                },
                is_not: false,
            }),
        ]
    );
}

#[test]
fn variables_get_slots_and_leave_their_block() {
    let script = "require \"variables\"; set \"a\" \"1\"; if true { set \"b\" \"${a}${b}${1}${nope}x\"; set \"A\" \"2\"; } set \"c\" \"${b}\";";
    let compiled = Sieve::compile(script.as_bytes()).unwrap();
    assert_eq!(compiled.num_vars(), 2);
    assert_eq!(
        compiled.instructions()[1..],
        [
            Instruction::SetVariable(SetVariable { name: Variable::Local(0), value: text("1") }),
            Instruction::Test(TestExpr { test: Test::True, is_not: false }),
            Instruction::Jz(8),
            Instruction::SetVariable(SetVariable {
                name: Variable::Local(1),
                value: StringItem::Template(vec![
                    Piece::Local(0),
                    Piece::Text(vec![]),
                    Piece::Match(1),
                    Piece::Text(vec![]),
                    Piece::Text(b"x".to_vec()),
                ]),
            }),
            Instruction::SetVariable(SetVariable { name: Variable::Local(0), value: text("2") }),
            Instruction::Clear(Clear { local_vars_idx: 1, local_vars_num: 1, match_vars: 0 }),
            Instruction::Jmp(8),
            Instruction::SetVariable(SetVariable { name: Variable::Local(1), value: text("") }),
            Instruction::Return,
        ]
    );
}

#[test]
fn strings_are_literal_until_variables_are_required() {
    assert_eq!(
        program("require \"fileinto\"; fileinto \"${x}\";")[1],
        Instruction::FileInto(FileInto {
            copy: false,
            create: false,
            folder: text("${x}"),
            flags: vec![],
            mailbox_id: None,
            special_use: None,
        })
    );
}

#[test]
fn each_kind_of_compile_error() {
    assert_eq!(
        error("keep"),
        CompileError { kind: ErrorType::UnexpectedToken("more input"), line_num: 1, line_pos: 5 }
    );
    assert_eq!(
        error("keep;\n  discard }"),
        CompileError { kind: ErrorType::UnexpectedToken("';'"), line_num: 2, line_pos: 11 }
    );
    assert_eq!(error("redirect 5;").kind, ErrorType::ExpectedString);
    assert_eq!(error("if size :over \"x\" { keep; }").kind, ErrorType::ExpectedNumber);
    assert_eq!(error("keep :copy;").kind, ErrorType::InvalidTag);
    assert_eq!(error("if size 5 { keep; }").kind, ErrorType::InvalidTag);
    assert_eq!(
        error("require \"fileinto\"; require [\"copy\", \"fileinto\"];").kind,
        ErrorType::DuplicateRequire
    );
    assert_eq!(
        error("fileinto \"a\";"),
        CompileError { kind: ErrorType::MissingRequire(Capability::FileInto), line_num: 1, line_pos: 1 }
    );
    assert_eq!(
        error("require \"fileinto\"; fileinto :copy \"a\";").kind,
        ErrorType::MissingRequire(Capability::Copy)
    );
    assert_eq!(error("set \"a\" \"b\";").kind, ErrorType::MissingRequire(Capability::Variables));
    assert_eq!(
        error("if header :comparator \"i;ascii-numeric\" \"a\" \"b\" { keep; }").kind,
        ErrorType::InvalidCombination("unknown comparator")
    );
    assert_eq!(
        error("require \"foreverypart\"; break;").kind,
        ErrorType::InvalidCombination("break outside of a loop")
    );
    assert_eq!(
        error("require \"foreverypart\"; foreverypart { break :name \"x\"; }").kind,
        ErrorType::InvalidCombination("no loop of that name")
    );
    assert_eq!(
        error("require \"envelope\"; if envelope \"nowhere\" \"a\" { keep; }").kind,
        ErrorType::InvalidCombination("unknown envelope part")
    );
    assert_eq!(
        error("require \"variables\"; set \"1a\" \"b\";").kind,
        ErrorType::InvalidCombination("invalid variable name")
    );
    assert_eq!(error("frobnicate;").kind, ErrorType::UnknownCommand);
    assert_eq!(error("not;").kind, ErrorType::UnknownCommand);
    assert_eq!(error("\"x\";").kind, ErrorType::UnknownCommand);
    assert_eq!(error("keep; \"abc").kind, ErrorType::UnterminatedString);
    assert_eq!(error("redirect \"a\\qb\";").kind, ErrorType::InvalidEscape);
    assert_eq!(Sieve::compile(b"keep; \"a\xff\"").unwrap_err().kind, ErrorType::InvalidUtf8);
}

#[test]
fn blocks_nest_only_so_deep() {
    let nested = |n: usize| format!("{}keep;{}", "if true { ".repeat(n), " }".repeat(n));
    assert!(Sieve::compile(nested(15).as_bytes()).is_ok());
    assert_eq!(error(&nested(16)).kind, ErrorType::NestingTooDeep);
    let tests = |n: usize| format!("if {}true{} {{ keep; }}", "anyof (".repeat(n), ")".repeat(n));
    assert!(Sieve::compile(tests(15).as_bytes()).is_ok());
    assert_eq!(error(&tests(16)).kind, ErrorType::NestingTooDeep);
}

#[test]
fn a_script_of_too_many_instructions_is_too_large() {
    let fits = "stop;".repeat(1048575);
    assert_eq!(Sieve::compile(fits.as_bytes()).unwrap().instructions().len(), 1048576);
    let script = "stop;".repeat(1048576);
    assert_eq!(
        error(&script),
        CompileError { kind: ErrorType::ScriptTooLarge, line_num: 1, line_pos: 5 * 1048576 + 1 }
    );
}

#[test]
fn too_many_variables_is_an_error() {
    let mut script = String::from("require \"variables\";");
    for i in 0..256 {
        script.push_str(&format!("set \"v{}\" \"\";", i));
    }
    assert_eq!(Sieve::compile(script.as_bytes()).unwrap().num_vars(), 256);
    script.push_str("set \"one_more\" \"\";");
    assert_eq!(error(&script).kind, ErrorType::InvalidCombination("too many variables"));
}

#[test]
fn vacation_takes_its_tags() {
    assert_eq!(
        program("require \"vacation\"; vacation :days 3 :handle \"h\" \"away\";")[1],
        Instruction::Vacation(sieve::Vacation {
            subject: None,
            from: None,
            mime: false,
            handle: Some(text("h")),
            addresses: vec![],
            period: sieve::Period::Days(3),
            fcc: None,
            reason: text("away"),
        })
    );
    assert_eq!(error("vacation \"away\";").kind, ErrorType::MissingRequire(Capability::Vacation));
    assert_eq!(
        error("require \"vacation\"; vacation :seconds 5 \"away\";").kind,
        ErrorType::MissingRequire(Capability::VacationSeconds)
    );
    assert_eq!(
        error("require \"vacation\"; vacation :fcc \"Sent\" \"away\";").kind,
        ErrorType::MissingRequire(Capability::Fcc)
    );
    assert_eq!(
        error("require \"vacation\"; vacation :create \"away\";"),
        CompileError {
            kind: ErrorType::InvalidCombination("missing ':fcc' tag"),
            line_num: 1,
            line_pos: 21,
        }
    );
    assert_eq!(error("require \"vacation\"; vacation :copy \"away\";").kind, ErrorType::InvalidTag);
    assert_eq!(error("require \"vacation\"; vacation :days \"3\" \"away\";").kind, ErrorType::ExpectedNumber);
}

#[test]
fn the_name_of_a_capability_reads_back_as_the_capability() {
    for name in ["fileinto", "comparator-i;octet", "comparator-other", "unknown", "", "x y"] {
        let capability = Capability::parse(name.as_bytes().to_vec());
        assert_eq!(capability.to_name(), name);
        assert_eq!(Capability::parse(capability.to_name().into_bytes()), capability);
    }
    // A capability that was made by hand under the name of another does not.
    let odd = Capability::Other("fileinto".to_string());
    assert_eq!(Capability::parse(odd.to_name().into_bytes()), Capability::FileInto);
}

#[test]
fn a_comparator_name_outside_the_registry_is_required_as_a_comparator() {
    assert_eq!(
        program("require [\"comparator-i;unicode\", \"frobnicate\"];")[0],
        Instruction::Require(vec![
            Capability::Comparator(Comparator::Other("i;unicode".to_string())),
            Capability::Other("frobnicate".to_string()),
        ])
    );
}

#[test]
fn edits_of_the_message_compile_to_their_instructions() {
    assert_eq!(
        program(
            "require [\"editheader\", \"replace\", \"enclose\", \"convert\", \"extracttext\", \"foreverypart\", \"variables\"]; \
             addheader :last \"A\" \"b\"; deleteheader \"C\"; replace :mime \"r\"; enclose :headers \"H: v\" \"t\"; \
             convert \"a/b\" \"c/d\" [\"p\"]; foreverypart { extracttext :first 9 \"x\"; }"
        )[1..9],
        [
            Instruction::AddHeader(sieve::AddHeader { last: true, field: text("A"), value: text("b") }),
            Instruction::DeleteHeader(text("C")),
            Instruction::Replace(sieve::Replace {
                mime: true,
                subject: None,
                from: None,
                replacement: text("r"),
            }),
            Instruction::Enclose(sieve::Enclose {
                subject: None,
                headers: vec![text("H: v")],
                text: text("t"),
            }),
            Instruction::Convert(sieve::Convert {
                from_type: text("a/b"),
                to_type: text("c/d"),
                params: vec![text("p")],
            }),
            Instruction::ForEveryPartPush,
            Instruction::ForEveryPart(ForEveryPart { jz_pos: 11 }),
            Instruction::ExtractText(sieve::ExtractText {
                first: Some(9),
                target: Variable::Local(0),
            }),
        ]
    );
    assert_eq!(error("addheader \"A\" \"b\";").kind, ErrorType::MissingRequire(Capability::EditHeader));
    assert_eq!(error("replace \"r\";").kind, ErrorType::MissingRequire(Capability::Replace));
    assert_eq!(
        error("require [\"extracttext\", \"variables\"]; extracttext \"x\";").kind,
        ErrorType::InvalidCombination("extracttext outside of a loop")
    );
    assert_eq!(
        error("if header :list \"to\" \"urn:l\" { keep; }").kind,
        ErrorType::InvalidTag
    );
    assert_eq!(
        error("require \"variables\"; if string :list \"a\" \"urn:l\" { keep; }").kind,
        ErrorType::MissingRequire(Capability::ExtLists)
    );
    assert_eq!(
        error("require \"spamtest\"; if spamtest :percent \"5\" { keep; }").kind,
        ErrorType::MissingRequire(Capability::SpamTestPlus)
    );
}
