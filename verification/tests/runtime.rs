use sieve::runtime::envelope::parse_envelope_address;
use sieve::{
    Capability, Clear, Context, Envelope, Event, Input, Instruction, Keep, Limits, Mail, Piece,
    Runtime, RuntimeError, SetVariable, Sieve, StringItem, Variable,
};
use sieve::runtime::message::{Header, Part};

/// What the message parser finds in a raw message, as the library takes it.
fn mail(raw: &[u8]) -> Mail {
    let parsed = mail_parser::Message::parse(raw).unwrap_or_default();
    let parts = parsed
        .parts
        .iter()
        .map(|part| Part {
            headers: part
                .headers
                .iter()
                .map(|h| Header {
                    name: h.name.as_str().as_bytes().to_vec(),
                    value: raw.get(h.offset_start..h.offset_end).unwrap_or_default().to_vec(),
                })
                .collect(),
            nested: match &part.body {
                mail_parser::PartType::Multipart(ids) => ids.clone(),
                _ => Vec::new(),
            },
            text: match &part.body {
                mail_parser::PartType::Text(t) | mail_parser::PartType::Html(t) => {
                    t.as_bytes().to_vec()
                }
                _ => Vec::new(),
            },
        })
        .collect();
    Mail { parts, size: raw.len() }
}

const MINIMAL: &[u8] = b"From: bob@y\r\nTo: alice@x\r\nSubject: test\r\n\r\nhello\r\n";

const ALTERNATIVE: &[u8] = b"From: bob@y\r\nSubject: two parts\r\nMIME-Version: 1.0\r\nContent-Type: multipart/alternative; boundary=\"b1\"\r\n\r\n--b1\r\nContent-Type: text/plain\r\n\r\nplain\r\n--b1\r\nContent-Type: text/html\r\n\r\n<p>html</p>\r\n--b1--\r\n";

fn limits() -> Limits {
    Limits { max_instructions: 10_000, max_nested_includes: 3, max_includes: 10 }
}

fn everything(limits: Limits) -> Runtime {
    Runtime::new(
        vec![
            Capability::Vacation,
            Capability::VacationSeconds,
            Capability::Fcc,
            Capability::EditHeader,
            Capability::Replace,
            Capability::Enclose,
            Capability::ExtractText,
            Capability::Convert,
            Capability::SpamTest,
            Capability::SpamTestPlus,
            Capability::VirusTest,
            Capability::Environment,
            Capability::ExtLists,
            Capability::FileInto,
            Capability::Variables,
            Capability::Imap4Flags,
            Capability::ForEveryPart,
            Capability::Include,
            Capability::Duplicate,
            Capability::Reject,
            Capability::Ereject,
            Capability::Ihave,
            Capability::Envelope,
        ],
        limits,
    )
}

fn compile(script: &str) -> Sieve {
    Sieve::compile(script.as_bytes()).unwrap()
}

/// Runs a script to its end. A request for a script is answered from
/// `scripts`, or with `False` where the name is not among them; every other
/// event is answered with `answer`.
fn host(
    ctx: &mut Context,
    script: Sieve,
    scripts: &[(&str, &str)],
    answer: bool,
) -> Vec<Result<Event, RuntimeError>> {
    let mut out = Vec::new();
    let mut input = Input::Script { name: b"main".to_vec(), script };
    while let Some(r) = ctx.run(input) {
        input = if answer { Input::True } else { Input::False };
        if let Ok(Event::IncludeScript { name }) = &r {
            input = Input::False;
            for (known, text) in scripts {
                if known.as_bytes() == name.as_slice() {
                    input = Input::Script { name: name.clone(), script: compile(text) };
                }
            }
        }
        let stop = r.is_err();
        out.push(r);
        if stop {
            break;
        }
    }
    out
}

fn events(script: &str) -> Vec<Result<Event, RuntimeError>> {
    let runtime = everything(limits());
    let mut ctx = Context::new(&runtime, mail(MINIMAL));
    host(&mut ctx, compile(script), &[], true)
}

fn fileinto(folder: &str) -> Result<Event, RuntimeError> {
    Ok(Event::FileInto {
        folder: folder.as_bytes().to_vec(),
        flags: vec![],
        mailbox_id: None,
        special_use: None,
        copy: false,
        create: false,
    })
}

#[test]
fn the_parsed_message_holds_parts_and_header_fields() {
    let mail = mail(ALTERNATIVE);
    assert_eq!(mail.size, ALTERNATIVE.len());
    assert_eq!(mail.parts.len(), 3);
    assert_eq!(mail.parts[0].nested, vec![1, 2]);
    assert_eq!(mail.parts[1].nested, Vec::<usize>::new());
    assert_eq!(mail.nested_ids(0), vec![1, 2]);
    assert_eq!(mail.nested_ids(7), Vec::<usize>::new());
    let names: Vec<&[u8]> = mail.parts[0].headers.iter().map(|h| h.name.as_slice()).collect();
    assert_eq!(names, vec![&b"From"[..], b"Subject", b"MIME-Version", b"Content-Type"]);
    assert_eq!(mail.parts[0].headers[1].value, b" two parts\r\n".to_vec());
    assert_eq!(mail.parts[2].headers.len(), 1);
    assert_eq!(mail.parts[2].headers[0].name, b"Content-Type".to_vec());
    assert_eq!(mail.parts[2].headers[0].value, b" text/html\r\n".to_vec());
    assert_eq!(mail.text(1), b"plain".to_vec());
    assert_eq!(mail.text(0), Vec::<u8>::new());
    assert_eq!(mail.text(9), Vec::<u8>::new());
}

#[test]
fn a_text_without_header_fields_is_an_empty_message() {
    let empty = mail(b"");
    assert_eq!(empty.parts.len(), 0);
    assert_eq!(empty.size, 0);
    let runtime = everything(limits());
    let mut ctx = Context::new(&runtime, mail(b""));
    let script = compile("if exists \"Subject\" { keep; } if size :under 1 { discard; stop; }");
    assert_eq!(host(&mut ctx, script, &[], true), vec![]);
}

#[test]
fn run_without_a_script_is_complete_at_once() {
    let runtime = everything(limits());
    let mut ctx = Context::new(&runtime, mail(MINIMAL));
    assert_eq!(ctx.run(Input::True), None);
    assert_eq!(ctx.run(Input::False), None);
}

#[test]
fn size_test_compares_with_the_size_of_the_message() {
    let n = MINIMAL.len();
    assert_eq!(events(&format!("if size :over {} {{ keep; }}", n - 1)), vec![Ok(Event::Keep)]);
    assert_eq!(events(&format!("if size :over {} {{ keep; }}", n)), vec![]);
    assert_eq!(events(&format!("if size :under {} {{ keep; }}", n + 1)), vec![Ok(Event::Keep)]);
    assert_eq!(events(&format!("if size :under {} {{ keep; }}", n)), vec![]);
}

#[test]
fn exists_test_wants_every_name() {
    assert_eq!(events("if exists [\"from\", \"SUBJECT\"] { keep; }"), vec![Ok(Event::Keep)]);
    assert_eq!(events("if exists [\"from\", \"cc\"] { keep; }"), vec![]);
    assert_eq!(events("if not exists \"cc\" { keep; }"), vec![Ok(Event::Keep)]);
}

#[test]
fn header_test_matches_with_the_comparator() {
    assert_eq!(events("if header :is \"subject\" \"TEST\" { keep; }"), vec![Ok(Event::Keep)]);
    assert_eq!(
        events("if header :is :comparator \"i;octet\" \"subject\" \"TEST\" { keep; }"),
        vec![]
    );
    assert_eq!(
        events("if header :contains [\"cc\", \"to\"] [\"nobody\", \"LICE@\"] { keep; }"),
        vec![Ok(Event::Keep)]
    );
    assert_eq!(
        events("if header :contains :comparator \"i;octet\" \"to\" \"LICE@\" { keep; }"),
        vec![]
    );
    assert_eq!(events("if header :contains \"to\" \"\" { keep; }"), vec![Ok(Event::Keep)]);
    assert_eq!(events("if header :is \"to\" \"alice\" { keep; }"), vec![]);
}

#[test]
fn combined_tests_stop_as_soon_as_they_are_decided() {
    assert_eq!(events("if anyof (false, true, false) { keep; }"), vec![Ok(Event::Keep)]);
    assert_eq!(events("if anyof (false, false) { keep; }"), vec![]);
    assert_eq!(events("if allof (true, true) { keep; }"), vec![Ok(Event::Keep)]);
    assert_eq!(events("if allof (true, false, true) { keep; }"), vec![]);
    assert_eq!(events("if not anyof (false, false) { keep; }"), vec![Ok(Event::Keep)]);
    assert_eq!(events("if not allof (true, not false) { keep; } else { discard; }"), vec![]);
    assert_eq!(
        events("if false { discard; } elsif allof (anyof (false, true), true) { keep; }"),
        vec![Ok(Event::Keep)]
    );
}

#[test]
fn actions_become_events() {
    assert_eq!(
        events(
            "require [\"reject\", \"ereject\", \"imap4flags\"]; keep; redirect \"a@b\"; reject \"no\"; \
             ereject \"never\"; setflag \"a\"; addflag [\"b\", \"c\"]; removeflag \"d\"; discard;"
        ),
        vec![
            Ok(Event::Keep),
            Ok(Event::Redirect { address: b"a@b".to_vec(), copy: false }),
            Ok(Event::Reject { reason: b"no".to_vec(), ereject: false }),
            Ok(Event::Reject { reason: b"never".to_vec(), ereject: true }),
            Ok(Event::SetFlag { flags: vec![b"a".to_vec()] }),
            Ok(Event::AddFlag { flags: vec![b"b".to_vec(), b"c".to_vec()] }),
            Ok(Event::RemoveFlag { flags: vec![b"d".to_vec()] }),
        ]
    );
}

#[test]
fn stop_ends_the_evaluation() {
    assert_eq!(events("keep; stop; keep;"), vec![Ok(Event::Keep)]);
}

#[test]
fn error_command_ends_with_its_message() {
    assert_eq!(
        events("require [\"ihave\", \"variables\"]; set \"why\" \"bad\"; error \"so ${why}\"; keep;"),
        vec![Err(RuntimeError::ScriptErrorMessage(b"so bad".to_vec()))]
    );
}

#[test]
fn duplicate_test_is_answered_by_the_host() {
    let runtime = everything(limits());
    let script = "require \"duplicate\"; if duplicate :handle \"h\" :seconds 5 { discard; } else { keep; }";
    let ask = Ok(Event::DuplicateId {
        id: None,
        handle: Some(b"h".to_vec()),
        seconds: Some(5),
        last: false,
    });
    let mut ctx = Context::new(&runtime, mail(MINIMAL));
    assert_eq!(host(&mut ctx, compile(script), &[], true), vec![ask.clone()]);
    let mut ctx = Context::new(&runtime, mail(MINIMAL));
    assert_eq!(host(&mut ctx, compile(script), &[], false), vec![ask.clone(), Ok(Event::Keep)]);
    let negated = "require \"duplicate\"; if not duplicate :handle \"h\" :seconds 5 { keep; }";
    let mut ctx = Context::new(&runtime, mail(MINIMAL));
    assert_eq!(host(&mut ctx, compile(negated), &[], false), vec![ask.clone(), Ok(Event::Keep)]);
    let mut ctx = Context::new(&runtime, mail(MINIMAL));
    assert_eq!(host(&mut ctx, compile(negated), &[], true), vec![ask]);
}

#[test]
fn variables_expand_in_one_pass() {
    assert_eq!(
        events(
            "require [\"variables\", \"fileinto\"]; set \"a\" \"${b}\"; set \"b\" \"x\"; \
             set \"c\" \"1${a}2${B}3${nope}4$${b}\"; fileinto \"${c}\";"
        ),
        vec![fileinto("12x34$x")]
    );
}

#[test]
fn variables_of_a_block_are_cleared_at_its_end() {
    assert_eq!(
        events(
            "require [\"variables\", \"fileinto\"]; if true { set \"a\" \"in\"; fileinto \"${a}\"; } \
             set \"b\" \"out\"; fileinto \"${a}${b}\";"
        ),
        vec![fileinto("in"), fileinto("out")]
    );
}

#[test]
fn clear_empties_the_variables_of_its_range() {
    let set = |slot: usize, value: &str| {
        Instruction::SetVariable(SetVariable {
            name: Variable::Local(slot),
            value: StringItem::Text(value.as_bytes().to_vec()),
        })
    };
    let show = Instruction::Redirect(sieve::Redirect {
        copy: false,
        address: StringItem::Template(vec![
            Piece::Local(0),
            Piece::Text(b"|".to_vec()),
            Piece::Local(1),
            Piece::Text(b"|".to_vec()),
            Piece::Local(2),
            Piece::Local(3),
            Piece::Match(0),
        ]),
    });
    let run = |clear: Clear| {
        let runtime = everything(limits());
        let mut ctx = Context::new(&runtime, mail(MINIMAL));
        let program = vec![
            set(0, "a"),
            set(1, "b"),
            set(2, "c"),
            set(3, "ignored"),
            Instruction::Clear(clear),
            show.clone(),
            Instruction::Return,
        ];
        host(&mut ctx, Sieve::new(program, 3, 2, 0).unwrap(), &[], true)
    };
    let shown = |address: &str| vec![Ok(Event::Redirect { address: address.as_bytes().to_vec(), copy: false })];
    assert_eq!(run(Clear { local_vars_idx: 1, local_vars_num: 2, match_vars: 3 }), shown("a||"));
    assert_eq!(run(Clear { local_vars_idx: 0, local_vars_num: 1, match_vars: 0 }), shown("|b|c"));
    assert_eq!(run(Clear { local_vars_idx: 0, local_vars_num: 0, match_vars: 0 }), shown("a|b|c"));
    assert_eq!(run(Clear { local_vars_idx: 2, local_vars_num: 2, match_vars: 0 }), shown("a|b|c"));
    assert_eq!(
        run(Clear { local_vars_idx: u32::MAX, local_vars_num: u32::MAX, match_vars: u64::MAX }),
        shown("a|b|c")
    );
}

#[test]
fn included_script_has_variables_of_its_own() {
    let runtime = everything(limits());
    let mut ctx = Context::new(&runtime, mail(MINIMAL));
    let main = "require [\"variables\", \"fileinto\", \"include\"]; set \"a\" \"main\"; include \"sub\"; fileinto \"${a}\";";
    let sub = "require [\"variables\", \"fileinto\"]; fileinto \"[${a}]\"; set \"a\" \"sub\"; fileinto \"${a}\";";
    assert_eq!(
        host(&mut ctx, compile(main), &[("sub", sub)], true),
        vec![
            Ok(Event::IncludeScript { name: b"sub".to_vec() }),
            fileinto("[]"),
            fileinto("sub"),
            fileinto("main"),
        ]
    );
}

#[test]
fn global_variables_are_shared_between_scripts() {
    let runtime = everything(limits());
    let mut ctx = Context::new(&runtime, mail(MINIMAL));
    let main = "require [\"variables\", \"fileinto\", \"include\"]; global [\"g\", \"h\"]; set \"G\" \"one\"; include \"sub\"; fileinto \"${g}${h}\";";
    let sub = "require [\"variables\", \"fileinto\"]; global \"g\"; fileinto \"${g}${h}\"; set \"g\" \"two\"; set \"h\" \"local\";";
    assert_eq!(
        host(&mut ctx, compile(main), &[("sub", sub)], true),
        vec![Ok(Event::IncludeScript { name: b"sub".to_vec() }), fileinto("one"), fileinto("two")]
    );
}

#[test]
fn a_script_is_asked_for_once_and_then_taken_from_the_cache() {
    let runtime = everything(limits());
    let ask = Ok(Event::IncludeScript { name: b"sub".to_vec() });
    let mut ctx = Context::new(&runtime, mail(MINIMAL));
    let main = "require \"include\"; include \"sub\"; include \"sub\"; discard;";
    assert_eq!(
        host(&mut ctx, compile(main), &[("sub", "keep;")], true),
        vec![ask.clone(), Ok(Event::Keep), Ok(Event::Keep)]
    );
    let mut ctx = Context::new(&runtime, mail(MINIMAL));
    let main = "require \"include\"; include \"sub\"; include :once \"sub\"; discard;";
    assert_eq!(
        host(&mut ctx, compile(main), &[("sub", "keep;")], true),
        vec![ask.clone(), Ok(Event::Keep)]
    );
    // The host has no such script and says so: the evaluation goes on.
    let mut ctx = Context::new(&runtime, mail(MINIMAL));
    let main = "require \"include\"; include \"sub\"; keep;";
    assert_eq!(host(&mut ctx, compile(main), &[], true), vec![ask, Ok(Event::Keep)]);
}

#[test]
fn scripts_may_be_nested_only_so_deep() {
    let runtime = everything(limits());
    let mut ctx = Context::new(&runtime, mail(MINIMAL));
    let again = "require \"include\"; keep; include \"sub\";";
    assert_eq!(
        host(&mut ctx, compile(again), &[("sub", again)], true),
        vec![
            Ok(Event::Keep),
            Ok(Event::IncludeScript { name: b"sub".to_vec() }),
            Ok(Event::Keep),
            Ok(Event::Keep),
            Ok(Event::Keep),
            Err(RuntimeError::IncludeRecursionLimit),
        ]
    );
}

#[test]
fn only_so_many_scripts_may_be_loaded() {
    let runtime = everything(Limits { max_includes: 2, ..limits() });
    let mut ctx = Context::new(&runtime, mail(MINIMAL));
    let main = "require \"include\"; include \"a\"; include \"b\"; keep;";
    assert_eq!(
        host(&mut ctx, compile(main), &[("a", "keep;"), ("b", "keep;")], true),
        vec![
            Ok(Event::IncludeScript { name: b"a".to_vec() }),
            Ok(Event::Keep),
            Err(RuntimeError::TooManyIncludes),
        ]
    );
}

#[test]
fn only_so_many_instructions_are_executed() {
    let runtime = everything(Limits { max_instructions: 3, ..limits() });
    let mut ctx = Context::new(&runtime, mail(MINIMAL));
    assert_eq!(
        host(&mut ctx, compile("discard; keep; discard; keep;"), &[], true),
        vec![Ok(Event::Keep), Err(RuntimeError::ScriptTooLong)]
    );
    // A jump back to anything but the step of a loop is no program.
    assert!(Sieve::new(vec![Instruction::Discard, Instruction::Jmp(0)], 0, 0, 0).is_none());
    assert!(Sieve::new(vec![Instruction::Jmp(0)], 0, 0, 0).is_none());
    // A loop that never ends runs into the limit.
    let spin = vec![
        Instruction::ForEveryPart(sieve::ForEveryPart { jz_pos: 1 }),
        Instruction::Jmp(0),
    ];
    let runtime = everything(Limits { max_instructions: 100, ..limits() });
    let mut ctx = Context::new(&runtime, mail(MINIMAL));
    assert_eq!(
        host(&mut ctx, Sieve::new(spin, 0, 0, 0).unwrap(), &[], true),
        vec![Err(RuntimeError::ScriptTooLong)]
    );
}

#[test]
fn a_program_with_too_many_match_variables_is_an_illegal_action() {
    let runtime = everything(limits());
    let mut ctx = Context::new(&runtime, mail(MINIMAL));
    let script = Sieve::new(vec![Instruction::Return], 0, sieve::MAX_MATCH_VARIABLES + 1, 0).unwrap();
    assert_eq!(
        ctx.run(Input::Script { name: b"main".to_vec(), script }),
        Some(Err(RuntimeError::IllegalAction))
    );
    let script = Sieve::new(
        vec![Instruction::Keep(Keep { flags: vec![] })],
        sieve::MAX_LOCAL_VARIABLES,
        sieve::MAX_MATCH_VARIABLES,
        0,
    )
    .unwrap();
    assert_eq!(ctx.run(Input::Script { name: b"main".to_vec(), script }), Some(Ok(Event::Keep)));
}

#[test]
fn an_invalid_instruction_ends_the_evaluation() {
    let runtime = everything(limits());
    let mut ctx = Context::new(&runtime, mail(MINIMAL));
    let program = vec![Instruction::Invalid(b"vacation".to_vec()), Instruction::Return];
    assert_eq!(
        host(&mut ctx, Sieve::new(program, 0, 0, 0).unwrap(), &[], true),
        vec![Err(RuntimeError::InvalidInstruction(b"vacation".to_vec()))]
    );
}

#[test]
fn a_script_closes_only_the_part_iterations_that_it_opened() {
    let runtime = everything(limits());
    let mut ctx = Context::new(&runtime, mail(ALTERNATIVE));
    // Inside the loop of the main script the included script tries to close
    // five iterations and returns from within a loop of its own.
    let main = "require [\"foreverypart\", \"include\"]; foreverypart { include \"sub\"; if header :contains \"content-type\" \"html\" { keep; } }";
    let sub = Sieve::new(
        vec![
            Instruction::ForEveryPartPop(5),
            Instruction::ForEveryPartPush,
            Instruction::ForEveryPartPush,
            Instruction::Return,
        ],
        0,
        0,
        0,
    )
    .unwrap();
    let mut out = Vec::new();
    let mut input = Input::Script { name: b"main".to_vec(), script: compile(main) };
    let mut sub = Some(sub);
    while let Some(r) = ctx.run(input) {
        input = match (&r, sub.take()) {
            (Ok(Event::IncludeScript { name }), Some(script)) => {
                Input::Script { name: name.clone(), script }
            }
            _ => Input::True,
        };
        out.push(r);
    }
    assert_eq!(out, vec![Ok(Event::IncludeScript { name: b"sub".to_vec() }), Ok(Event::Keep)]);
}

#[test]
fn nested_loops_visit_the_parts_of_each_part() {
    let runtime = everything(limits());
    let mut ctx = Context::new(&runtime, mail(ALTERNATIVE));
    let script = "require [\"foreverypart\", \"fileinto\"]; foreverypart { foreverypart { fileinto \"inner\"; } \
                  if header :contains \"content-type\" \"plain\" { fileinto \"plain\"; } else { fileinto \"other\"; } } \
                  if header :contains \"content-type\" \"multipart\" { fileinto \"root\"; }";
    assert_eq!(
        host(&mut ctx, compile(script), &[], true),
        vec![fileinto("plain"), fileinto("other"), fileinto("root")]
    );
}

#[test]
fn the_same_evaluation_hands_out_the_same_events() {
    let runtime = everything(limits());
    let script = "require [\"variables\", \"fileinto\", \"foreverypart\", \"duplicate\"]; set \"a\" \"x\"; \
                  foreverypart { if duplicate { fileinto \"${a}\"; } } keep;";
    let mut first = Context::new(&runtime, mail(ALTERNATIVE)).with_envelope(Envelope::From, "<bob@y>");
    let mut second = Context::new(&runtime, mail(ALTERNATIVE)).with_envelope(Envelope::From, "<bob@y>");
    let one = host(&mut first, compile(script), &[], true);
    let two = host(&mut second, compile(script), &[], true);
    assert_eq!(one.len(), 5);
    assert_eq!(one, two);
}

#[test]
fn allowed_capabilities_are_never_refused() {
    let script = "require [\"fileinto\", \"variables\", \"imap4flags\", \"include\", \"envelope\"]; keep;";
    assert_eq!(events(script), vec![Ok(Event::Keep)]);
    let runtime = Runtime::new(vec![Capability::FileInto], limits());
    let mut ctx = Context::new(&runtime, mail(MINIMAL));
    assert_eq!(
        host(&mut ctx, compile(script), &[], true),
        vec![Err(RuntimeError::CapabilityNotAllowed(Capability::Variables))]
    );
    assert!(runtime.is_allowed(&Capability::FileInto));
    assert!(!runtime.is_allowed(&Capability::Other("fileinto".to_string())));
}

#[test]
fn envelope_addresses() {
    let parse = |value: &str| parse_envelope_address(value.as_bytes());
    assert_eq!(parse("alice@x"), Some(b"alice@x".to_vec()));
    assert_eq!(parse("<alice@x>"), Some(b"alice@x".to_vec()));
    assert_eq!(parse(" \t<alice@x.example>\r\n"), Some(b"alice@x.example".to_vec()));
    assert_eq!(parse("<>"), Some(vec![]));
    assert_eq!(parse(""), None);
    assert_eq!(parse("   "), None);
    assert_eq!(parse("alice"), None);
    assert_eq!(parse("@x"), None);
    assert_eq!(parse("alice@"), None);
    assert_eq!(parse("al ice@x"), None);
    assert_eq!(parse("<alice@x"), None);
    assert_eq!(parse("alice@x>"), None);
    assert_eq!(parse("<<alice@x>>"), None);
    assert_eq!(parse("ali\u{e9}@x"), None);
}

#[test]
fn envelope_test_reads_the_slots() {
    let runtime = everything(limits());
    let script = "require \"envelope\"; if envelope :contains [\"from\", \"TO\"] \"@x\" { keep; }";
    let mut ctx = Context::new(&runtime, mail(MINIMAL));
    ctx.set_envelope(Envelope::From, "bob@y");
    assert_eq!(host(&mut ctx, compile(script), &[], true), vec![]);
    let mut ctx = Context::new(&runtime, mail(MINIMAL));
    ctx.set_envelope(Envelope::From, "bob@y");
    ctx.set_envelope(Envelope::To, "<alice@x>");
    assert_eq!(host(&mut ctx, compile(script), &[], true), vec![Ok(Event::Keep)]);
    let mut ctx = Context::new(&runtime, mail(MINIMAL));
    ctx.set_envelope(Envelope::Orcpt, "<alice@x>");
    assert_eq!(host(&mut ctx, compile(script), &[], true), vec![]);
}

#[test]
fn vacation_becomes_an_event() {
    assert_eq!(
        events(
            "require [\"vacation\", \"vacation-seconds\", \"fcc\", \"variables\"]; set \"who\" \"me\"; \
             vacation :days 7 :seconds 90 :subject \"away: ${who}\" :from \"me@x\" :addresses [\"a@x\", \"b@x\"] \
             :mime :handle \"h\" :fcc \"Sent\" :flags \"\\\\Seen\" \"I am ${who}, and away\"; vacation \"gone\";"
        ),
        vec![
            Ok(Event::Vacation {
                reason: b"I am me, and away".to_vec(),
                subject: Some(b"away: me".to_vec()),
                from: Some(b"me@x".to_vec()),
                addresses: vec![b"a@x".to_vec(), b"b@x".to_vec()],
                mime: true,
                handle: Some(b"h".to_vec()),
                period: sieve::Period::Seconds(90),
                fcc: Some(sieve::FileCarbonCopy {
                    target: b"Sent".to_vec(),
                    create: false,
                    flags: vec![b"\\Seen".to_vec()],
                    special_use: None,
                    mailbox_id: None,
                }),
            }),
            Ok(Event::Vacation {
                reason: b"gone".to_vec(),
                subject: None,
                from: None,
                addresses: vec![],
                mime: false,
                handle: None,
                period: sieve::Period::Default,
                fcc: None,
            }),
        ]
    );
}

#[test]
fn global_variables_are_found_whatever_the_case_of_their_name() {
    let runtime = everything(limits());
    let mut ctx = Context::new(&runtime, mail(MINIMAL));
    let main = "require [\"variables\", \"fileinto\", \"include\"]; global \"Foo\"; set \"FOO\" \"shared\"; include \"sub\";";
    let sub = "require [\"variables\", \"fileinto\"]; global \"foo\"; fileinto \"${fOO}\";";
    assert_eq!(
        host(&mut ctx, compile(main), &[("sub", sub)], true),
        vec![Ok(Event::IncludeScript { name: b"sub".to_vec() }), fileinto("shared")]
    );
    // Programs that were not compiled here are read the same way.
    let mut ctx = Context::new(&runtime, mail(MINIMAL));
    let program = vec![
        Instruction::SetVariable(SetVariable {
            name: Variable::Global(b"MiXed".to_vec()),
            value: StringItem::Text(b"v".to_vec()),
        }),
        Instruction::Redirect(sieve::Redirect {
            copy: false,
            address: StringItem::Template(vec![Piece::Global(b"mIxED".to_vec())]),
        }),
        Instruction::Return,
    ];
    assert_eq!(
        host(&mut ctx, Sieve::new(program, 0, 0, 0).unwrap(), &[], true),
        vec![Ok(Event::Redirect { address: b"v".to_vec(), copy: false })]
    );
}

#[test]
fn header_edits_are_kept_for_the_host() {
    let runtime = everything(limits());
    let mut ctx = Context::new(&runtime, mail(ALTERNATIVE));
    let script = "require [\"editheader\", \"variables\", \"foreverypart\"]; set \"v\" \"yes\"; \
                  addheader \"X-Seen\" \"${v}\"; deleteheader \"Subject\"; \
                  foreverypart { addheader :last \"X-Part\" \"p\"; }";
    assert_eq!(host(&mut ctx, compile(script), &[], true), vec![]);
    assert_eq!(
        ctx.header_insertions(),
        &vec![
            (0, false, b"X-Seen".to_vec(), b"yes".to_vec()),
            (1, true, b"X-Part".to_vec(), b"p".to_vec()),
            (2, true, b"X-Part".to_vec(), b"p".to_vec()),
        ]
    );
    assert_eq!(ctx.header_deletions(), &vec![(0, b"Subject".to_vec())]);
    assert!(ctx.part_replacements().is_empty());
    assert!(ctx.part_deletions().is_empty());
}

#[test]
fn text_of_a_part_is_extracted() {
    let runtime = everything(limits());
    let mut ctx = Context::new(&runtime, mail(ALTERNATIVE));
    let script = "require [\"extracttext\", \"variables\", \"foreverypart\", \"fileinto\"]; \
                  foreverypart { extracttext :first 3 \"t\"; fileinto \"${t}\"; extracttext \"all\"; fileinto \"${all}\"; \
                  extracttext :first 100 \"t\"; fileinto \"${T}\"; break; }";
    assert_eq!(
        host(&mut ctx, compile(script), &[], true),
        vec![fileinto("pla"), fileinto("plain"), fileinto("plain")]
    );
}

#[test]
fn replace_enclose_and_convert_change_nothing_here() {
    assert_eq!(
        events(
            "require [\"replace\", \"enclose\", \"convert\"]; replace :mime :subject \"s\" :from \"f\" \"text\"; \
             enclose :subject \"s\" :headers [\"A: b\"] \"text\"; convert \"image/tiff\" \"image/jpeg\" [\"pix-x=320\"]; keep;"
        ),
        vec![Ok(Event::Keep)]
    );
}

#[test]
fn tests_that_only_the_host_can_decide_ask_the_host() {
    let runtime = everything(limits());
    let asked = |script: &str, answer: bool| {
        let mut ctx = Context::new(&runtime, mail(MINIMAL));
        host(&mut ctx, compile(script), &[], answer)
    };
    let spam = "require [\"spamtest\", \"spamtestplus\"]; if spamtest :percent :contains \"5\" { keep; }";
    let event = Ok(Event::SpamTest {
        percent: true,
        match_type: sieve::MatchType::Contains,
        collation: sieve::Collation::AsciiCaseMap,
        value: vec![b"5".to_vec()],
    });
    assert_eq!(asked(spam, true), vec![event.clone(), Ok(Event::Keep)]);
    assert_eq!(asked(spam, false), vec![event]);
    let virus = "require \"virustest\"; if not virustest :comparator \"i;octet\" \"3\" { keep; }";
    let event = Ok(Event::VirusTest {
        match_type: sieve::MatchType::Is,
        collation: sieve::Collation::Octet,
        value: vec![b"3".to_vec()],
    });
    assert_eq!(asked(virus, false), vec![event.clone(), Ok(Event::Keep)]);
    assert_eq!(asked(virus, true), vec![event]);
    let environment = "require \"environment\"; if environment \"domain\" [\"a\", \"b\"] { keep; }";
    let event = Ok(Event::EnvironmentGet { name: b"domain".to_vec() });
    assert_eq!(asked(environment, true), vec![event.clone(), Ok(Event::Keep)]);
    assert_eq!(asked(environment, false), vec![event]);
    let list = "require [\"extlists\", \"variables\"]; set \"who\" \"me@x\"; \
                if string :list [\"${who}\", \"you@x\"] \"urn:friends\" { keep; }";
    let event = Ok(Event::ListContains {
        list: vec![b"urn:friends".to_vec()],
        value: vec![b"me@x".to_vec(), b"you@x".to_vec()],
    });
    assert_eq!(asked(list, true), vec![event.clone(), Ok(Event::Keep)]);
    assert_eq!(asked(list, false), vec![event]);
}
