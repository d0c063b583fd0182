use sieve::{
    Capability, Context, Envelope, Event, FileCarbonCopy, Input, Limits, Runtime, RuntimeError,
    Sieve,
};
use sieve::runtime::message::{Header, Mail, Part};

/// What the message parser finds in a raw message, as the library takes it.
fn mail(raw: &[u8]) -> Mail {
    let parsed = mail_parser::Message::parse(raw).unwrap_or_default();
    let parts = parsed
        .parts
        .iter()
        .map(|part| Part {
            headers: part
                .headers
                .iter()
                .map(|h| Header {
                    name: h.name.as_str().as_bytes().to_vec(),
                    value: raw.get(h.offset_start..h.offset_end).unwrap_or_default().to_vec(),
                })
                .collect(),
            nested: match &part.body {
                mail_parser::PartType::Multipart(ids) => ids.clone(),
                _ => Vec::new(),
            },
            text: match &part.body {
                mail_parser::PartType::Text(t) | mail_parser::PartType::Html(t) => {
                    t.as_bytes().to_vec()
                }
                _ => Vec::new(),
            },
        })
        .collect();
    Mail { parts, size: raw.len() }
}

const MINIMAL: &[u8] = b"From: bob@y\r\nTo: alice@x\r\nSubject: test\r\n\r\nhello\r\n";

const ALTERNATIVE: &[u8] = b"From: bob@y\r\nSubject: two parts\r\nMIME-Version: 1.0\r\nContent-Type: multipart/alternative; boundary=\"b1\"\r\n\r\n--b1\r\nContent-Type: text/plain\r\n\r\nplain\r\n--b1\r\nContent-Type: text/html\r\n\r\n<p>html</p>\r\n--b1--\r\n";

fn runtime() -> Runtime {
    Runtime::new(
        vec![
            Capability::FileInto,
            Capability::Variables,
            Capability::Imap4Flags,
            Capability::Fcc,
            Capability::ForEveryPart,
            Capability::Include,
            Capability::Mailbox,
            Capability::Envelope,
        ],
        Limits { max_instructions: 10_000, max_nested_includes: 3, max_includes: 10 },
    )
}

fn compile(script: &str) -> Sieve {
    Sieve::compile(script.as_bytes()).unwrap()
}

/// Runs a script to its end, answering a request for the script `sub` with
/// the given text and every other event with `True`.
fn evaluate(ctx: &mut Context, script: &str, sub: &str) -> Vec<Result<Event, RuntimeError>> {
    let mut out = Vec::new();
    let mut input = Input::Script { name: b"main".to_vec(), script: compile(script) };
    while let Some(r) = ctx.run(input) {
        input = match &r {
            Ok(Event::IncludeScript { name }) => {
                Input::Script { name: name.clone(), script: compile(sub) }
            }
            _ => Input::True,
        };
        let stop = r.is_err();
        out.push(r);
        if stop {
            break;
        }
    }
    out
}

#[test]
fn fileinto_files_into_the_folder() {
    let runtime = runtime();
    let mut ctx = Context::new(&runtime, mail(MINIMAL)).with_envelope(Envelope::To, "alice@x");
    let events = evaluate(&mut ctx, "require [\"fileinto\"]; fileinto \"INBOX.spam\";", "");
    assert_eq!(
        events,
        vec![Ok(Event::FileInto {
            folder: b"INBOX.spam".to_vec(),
            flags: vec![],
            mailbox_id: None,
            special_use: None,
            copy: false,
            create: false,
        })]
    );
}

#[test]
fn header_test_chooses_the_branch() {
    let runtime = runtime();
    let script = "if header :is \"Subject\" \"test\" { keep; } else { discard; }";
    let mut ctx = Context::new(&runtime, mail(MINIMAL));
    assert_eq!(evaluate(&mut ctx, script, ""), vec![Ok(Event::Keep)]);
    let mut ctx = Context::new(&runtime, mail(b"Subject: other\r\n\r\nhello\r\n"));
    assert_eq!(evaluate(&mut ctx, script, ""), vec![]);
}

#[test]
fn variable_is_set_and_expanded() {
    let runtime = runtime();
    let mut ctx = Context::new(&runtime, mail(MINIMAL));
    let script =
        "require [\"variables\"]; set \"x\" \"hello\"; if string :is \"${x}\" \"hello\" { keep; }";
    assert_eq!(evaluate(&mut ctx, script, ""), vec![Ok(Event::Keep)]);
}

#[test]
fn notify_carries_its_file_carbon_copy() {
    let runtime = runtime();
    let mut ctx = Context::new(&runtime, mail(MINIMAL));
    let script = "require [\"fileinto\",\"imap4flags\",\"fcc\"]; notify :fcc \"Sent\" :flags [\"\\\\Seen\"] :create \"mailto:u@x\";";
    assert_eq!(
        evaluate(&mut ctx, script, ""),
        vec![Ok(Event::Notify {
            method: b"mailto:u@x".to_vec(),
            from: None,
            importance: None,
            options: vec![],
            message: None,
            fcc: Some(FileCarbonCopy {
                target: b"Sent".to_vec(),
                create: true,
                flags: vec![b"\\Seen".to_vec()],
                special_use: None,
                mailbox_id: None,
            }),
        })]
    );
}

#[test]
fn foreverypart_stops_at_the_html_part() {
    let runtime = runtime();
    let mut ctx = Context::new(&runtime, mail(ALTERNATIVE));
    let script = "require [\"foreverypart\"]; foreverypart { if header :is \"content-type\" \"text/html\" { break; } }";
    assert_eq!(evaluate(&mut ctx, script, ""), vec![]);
    // With a keep in front of the break the visit of the second part shows.
    let mut ctx = Context::new(&runtime, mail(ALTERNATIVE));
    let script = "require [\"foreverypart\"]; foreverypart { if header :is \"content-type\" \"text/html\" { keep; break; } discard; } stop;";
    assert_eq!(evaluate(&mut ctx, script, ""), vec![Ok(Event::Keep)]);
}

#[test]
fn included_script_runs_and_returns() {
    let runtime = runtime();
    let mut ctx = Context::new(&runtime, mail(MINIMAL));
    let events = evaluate(&mut ctx, "require [\"include\"]; include \"sub\";", "keep;");
    assert_eq!(
        events,
        vec![Ok(Event::IncludeScript { name: b"sub".to_vec() }), Ok(Event::Keep)]
    );
}
