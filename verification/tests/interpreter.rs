use sieve::{
    Capability, Collation, Context, Envelope, Event, Input, Instruction, Keep, Limits, Match,
    MatchType, Runtime, RuntimeError, Sieve, StringItem, Test, TestExpr, MAX_LOCAL_VARIABLES,
};
use sieve::runtime::message::{Header, Mail, Part};

/// What the message parser finds in a raw message, as the library takes it.
fn mail(raw: &[u8]) -> Mail {
    let parsed = mail_parser::Message::parse(raw).unwrap_or_default();
    let parts = parsed
        .parts
        .iter()
        .map(|part| Part {
            headers: part
                .headers
                .iter()
                .map(|h| Header {
                    name: h.name.as_str().as_bytes().to_vec(),
                    value: raw.get(h.offset_start..h.offset_end).unwrap_or_default().to_vec(),
                })
                .collect(),
            nested: match &part.body {
                mail_parser::PartType::Multipart(ids) => ids.clone(),
                _ => Vec::new(),
            },
            text: match &part.body {
                mail_parser::PartType::Text(t) | mail_parser::PartType::Html(t) => {
                    t.as_bytes().to_vec()
                }
                _ => Vec::new(),
            },
        })
        .collect();
    Mail { parts, size: raw.len() }
}

fn limits() -> Limits {
    Limits { max_instructions: 10_000, max_nested_includes: 3, max_includes: 10 }
}

fn text(s: &str) -> StringItem {
    StringItem::Text(s.as_bytes().to_vec())
}

fn start(program: Vec<Instruction>) -> Input {
    Input::Script { name: b"main".to_vec(), script: Sieve::new(program, 0, 0, 0).unwrap() }
}

fn drain(ctx: &mut Context, first: Input) -> Vec<Result<Event, RuntimeError>> {
    let mut out = Vec::new();
    let mut input = first;
    while let Some(r) = ctx.run(input) {
        let stop = r.is_err();
        out.push(r);
        if stop {
            break;
        }
        input = Input::True;
    }
    out
}

fn subject_test(key: &str) -> Vec<Instruction> {
    vec![
        Instruction::Test(TestExpr {
            test: Test::Header {
                names: vec![text("Subject")],
                how: Match {
                    match_type: MatchType::Is,
                    collation: Collation::AsciiCaseMap,
                    keys: vec![text(key)],
                },
            },
            is_not: false,
        }),
        Instruction::Jz(4),
        Instruction::Keep(Keep { flags: vec![] }),
        Instruction::Jmp(5),
        Instruction::Discard,
        Instruction::Return,
    ]
}

#[test]
fn header_test_reads_the_parsed_message() {
    let runtime = Runtime::new(vec![], limits());
    let raw = b"From: a@x\r\nSubject: test\r\n\r\nhello\r\n";
    let mut ctx = Context::new(&runtime, mail(raw));
    assert_eq!(drain(&mut ctx, start(subject_test("test"))), vec![Ok(Event::Keep)]);
    let mut ctx = Context::new(&runtime, mail(raw));
    assert_eq!(drain(&mut ctx, start(subject_test("TEST"))), vec![Ok(Event::Keep)]);
    let mut ctx = Context::new(&runtime, mail(raw));
    assert_eq!(drain(&mut ctx, start(subject_test("other"))), vec![]);
}

#[test]
fn too_many_local_variables_is_an_illegal_action() {
    let runtime = Runtime::new(vec![], limits());
    let mut ctx = Context::new(&runtime, mail(b"Subject: x\r\n\r\n"));
    let script = Sieve::new(vec![Instruction::Return], MAX_LOCAL_VARIABLES + 1, 0, 0).unwrap();
    let r = ctx.run(Input::Script { name: b"main".to_vec(), script });
    assert_eq!(r, Some(Err(RuntimeError::IllegalAction)));
}

#[test]
fn backward_conditional_jump_is_no_program() {
    assert!(Sieve::new(vec![Instruction::Discard, Instruction::Jz(0)], 0, 0, 0).is_none());
    assert!(Sieve::new(vec![Instruction::Jz(2)], 0, 0, 0).is_none());
    assert!(Sieve::new(vec![Instruction::Jz(1)], 0, 0, 0).is_some());
}

#[test]
fn require_of_a_capability_that_is_not_allowed() {
    let runtime = Runtime::new(vec![Capability::FileInto], limits());
    let mut ctx = Context::new(&runtime, mail(b"Subject: x\r\n\r\n"));
    let program = vec![
        Instruction::Require(vec![Capability::FileInto, Capability::Variables]),
        Instruction::Return,
    ];
    assert_eq!(
        drain(&mut ctx, start(program)),
        vec![Err(RuntimeError::CapabilityNotAllowed(Capability::Variables))]
    );
    let mut ctx = Context::new(&runtime, mail(b"Subject: x\r\n\r\n"));
    let program = vec![
        Instruction::Require(vec![Capability::parse(b"frobnicate".to_vec())]),
        Instruction::Return,
    ];
    assert_eq!(
        drain(&mut ctx, start(program)),
        vec![Err(RuntimeError::CapabilityNotSupported("frobnicate".to_string()))]
    );
}

#[test]
fn envelope_values_are_parsed_as_addresses() {
    let runtime = Runtime::new(vec![], limits());
    let program = |key: &str| {
        vec![
            Instruction::Test(TestExpr {
                test: Test::Envelope {
                    slots: vec![Envelope::To],
                    how: Match {
                        match_type: MatchType::Is,
                        collation: Collation::Octet,
                        keys: vec![text(key)],
                    },
                },
                is_not: false,
            }),
            Instruction::Jz(3),
            Instruction::Keep(Keep { flags: vec![] }),
            Instruction::Return,
        ]
    };
    let mut ctx = Context::new(&runtime, mail(b"Subject: x\r\n\r\n")).with_envelope(Envelope::To, " <alice@x> ");
    assert_eq!(drain(&mut ctx, start(program("alice@x"))), vec![Ok(Event::Keep)]);
    let mut ctx = Context::new(&runtime, mail(b"Subject: x\r\n\r\n"));
    ctx.set_envelope(Envelope::To, "not an address");
    assert_eq!(drain(&mut ctx, start(program("not an address"))), vec![]);
    let mut ctx = Context::new(&runtime, mail(b"Subject: x\r\n\r\n"));
    ctx.set_envelope(Envelope::To, "alice@x");
    ctx.clear_envelope();
    assert_eq!(drain(&mut ctx, start(program("alice@x"))), vec![]);
}
