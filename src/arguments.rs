//! The argument vector handed to the tool for one submission.
use vstd::prelude::*;
use vstd::string::StringExecFns;
use crate::text::{option_arguments, option_lines, texts};

verus! {

/// The mode flags, in their fixed order.
pub open spec fn flag_arguments(
    record_audio: bool,
    use_clipboard: bool,
    browser_output: bool,
    resume: bool,
) -> Seq<Seq<char>> {
    (if record_audio {
        seq!["--record-audio"@]
    } else {
        Seq::empty()
    }) + (if use_clipboard {
        seq!["-c"@]
    } else {
        Seq::empty()
    }) + (if browser_output {
        seq!["--browser-output"@]
    } else {
        Seq::empty()
    }) + (if resume {
        seq!["-R"@]
    } else {
        Seq::empty()
    })
}

/// The whole argument vector: mode flags, the model selector pair, one
/// argument per non-blank trimmed option line, then the prompt as the last
/// argument when it is not empty.
pub open spec fn invocation(
    record_audio: bool,
    use_clipboard: bool,
    browser_output: bool,
    resume: bool,
    model: Seq<char>,
    options: Seq<char>,
    prompt: Seq<char>,
) -> Seq<Seq<char>> {
    flag_arguments(record_audio, use_clipboard, browser_output, resume) + seq![
        "--model"@,
        model,
    ] + option_arguments(options) + (if prompt.len() > 0 {
        seq![prompt]
    } else {
        Seq::empty()
    })
}

/// Builds the argument vector for one submission. Nothing is quoted: each
/// argument is one element, embedded spaces included.
pub fn build_arguments(
    record_audio: bool,
    use_clipboard: bool,
    browser_output: bool,
    resume: bool,
    model: &str,
    options: &str,
    prompt: &str,
) -> (r: Vec<String>)
    ensures
        texts(r@) == invocation(
            record_audio,
            use_clipboard,
            browser_output,
            resume,
            model@,
            options@,
            prompt@,
        ),
{
    let mut args: Vec<String> = Vec::new();
    if record_audio {
        args.push(String::from_str("--record-audio"));
    }
    if use_clipboard {
        args.push(String::from_str("-c"));
    }
    if browser_output {
        args.push(String::from_str("--browser-output"));
    }
    if resume {
        args.push(String::from_str("-R"));
    }
    assert(texts(args@) =~= flag_arguments(record_audio, use_clipboard, browser_output, resume));
    let ghost flags = args@;
    args.push(String::from_str("--model"));
    args.push(String::from_str(model));
    let ghost head = args@;
    assert(texts(head) =~= texts(flags) + seq!["--model"@, model@]);
    let lines = option_lines(options);
    let mut i: usize = 0;
    while i < lines.len()
        invariant
            i <= lines.len(),
            texts(args@) == texts(head) + texts(lines@).subrange(0, i as int),
        decreases lines.len() - i,
    {
        let ghost before = args@;
        args.push(lines[i].clone());
        assert(texts(args@) =~= texts(head) + texts(lines@).subrange(0, i + 1)) by {
            assert(texts(args@) =~= texts(before).push(lines@[i as int]@));
        }
        i += 1;
    }
    assert(texts(lines@).subrange(0, i as int) =~= texts(lines@));
    let ghost body = args@;
    if !prompt.is_empty() {
        args.push(String::from_str(prompt));
        assert(texts(args@) =~= texts(body).push(prompt@));
    } else {
        assert(texts(args@) =~= texts(body) + Seq::empty());
    }
    args
}

} // verus!

verus! {

/// The arguments that open the conversation in the browser.
pub fn conversation_arguments() -> (r: Vec<String>)
    ensures
        texts(r@) == seq!["--browser-output"@, "--show-conversation"@],
{
    let r = vec![String::from_str("--browser-output"), String::from_str("--show-conversation")];
    assert(texts(r@) =~= seq!["--browser-output"@, "--show-conversation"@]);
    r
}

/// The arguments that ask the tool for its help text.
pub fn help_arguments() -> (r: Vec<String>)
    ensures
        texts(r@) == seq!["--help"@],
{
    let r = vec![String::from_str("--help")];
    assert(texts(r@) =~= seq!["--help"@]);
    r
}

} // verus!
