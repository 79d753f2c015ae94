use tapir::config::{
    encode_path, parse_args, resolve_api_key, resolve_number, resolve_text, session_dir,
    Invocation, Prompt, DEFAULT_API_URL, DEFAULT_MAX_TOKENS, VERSION,
};
use tapir::context::{
    context_dirs, display_path, join_context, load_base_prompt, load_system_prompt, non_blank,
    read_context_in, CONTEXT_FILE, DEFAULT_PROMPT,
};
use tapir::error::Error;
use tapir::skill::Skill;

#[test]
fn blank_files_count_for_nothing() {
    assert_eq!(non_blank(Some("hello".to_string())), Some("hello".to_string()));
    assert_eq!(non_blank(Some("  \n  ".to_string())), None);
    assert_eq!(non_blank(Some(String::new())), None);
    assert_eq!(non_blank(None), None);
    assert_eq!(non_blank(Some(" x ".to_string())), Some(" x ".to_string()));
}

#[test]
fn the_base_prompt_prefers_the_project() {
    let s = |t: &str| Some(t.to_string());
    assert_eq!(load_base_prompt(None, None, None, None), DEFAULT_PROMPT);
    assert!(DEFAULT_PROMPT.starts_with("You are a coding assistant. "));
    assert!(DEFAULT_PROMPT.contains("\n\n# Tools\n\nYou have seven tools:\n- read_file: "));
    assert!(DEFAULT_PROMPT.ends_with("- Do not give time estimates for tasks."));
    assert_eq!(load_base_prompt(s("custom prompt"), None, None, None), "custom prompt");
    assert_eq!(load_base_prompt(None, s("global prompt"), None, None), "global prompt");
    assert_eq!(load_base_prompt(s("project"), s("global"), None, None), "project");
    assert_eq!(
        load_base_prompt(None, None, s("project-extra"), s("global-extra")),
        format!("{DEFAULT_PROMPT}\n\nproject-extra\n\nglobal-extra")
    );
    assert_eq!(load_base_prompt(s("b"), None, None, s("g")), "b\n\ng");
}

#[test]
fn instructions_are_joined_with_empty_lines() {
    assert_eq!(join_context(&vec![]), "");
    assert_eq!(join_context(&vec!["root-ctx".to_string()]), "root-ctx");
    assert_eq!(
        join_context(&vec!["root-ctx".to_string(), "child-ctx".to_string(), "x".to_string()]),
        "root-ctx\n\nchild-ctx\n\nx"
    );
}

#[test]
fn the_system_prompt_is_assembled() {
    let sp = load_system_prompt(
        "custom base\n\nextra".to_string(),
        "/w/project",
        "root-instructions\n\nproject-instructions",
        vec!["/w/AGENTS.md".to_string(), "/w/project/AGENTS.md".to_string()],
    );
    assert_eq!(
        sp.prompt,
        "custom base\n\nextra\n\nWorking directory: /w/project\n\n---\n\nroot-instructions\n\nproject-instructions"
    );
    assert_eq!(sp.context_files.len(), 2);
    let sp = load_system_prompt("base".to_string(), "/w", "", vec![]);
    assert_eq!(sp.prompt, "base\n\nWorking directory: /w");
}

#[test]
fn a_directory_gives_its_first_instructions() {
    let s = |t: &str| Some(t.to_string());
    assert_eq!(CONTEXT_FILE, "AGENTS.md");
    assert_eq!(
        read_context_in("/w", CONTEXT_FILE, s("agents"), "OTHER.md", s("other")),
        Some(("agents".to_string(), "/w/AGENTS.md".to_string()))
    );
    assert_eq!(
        read_context_in("/w", CONTEXT_FILE, None, "OTHER.md", s("other")),
        Some(("other".to_string(), "/w/OTHER.md".to_string()))
    );
    assert_eq!(read_context_in("/w", CONTEXT_FILE, None, "OTHER.md", None), None);
}

#[test]
fn paths_are_shown_short() {
    assert_eq!(display_path("/w/AGENTS.md", "/w", Some("/home/u")), "./AGENTS.md");
    assert_eq!(display_path("/w", "/w", None), "./");
    assert_eq!(
        display_path("/home/u/.tapir/agent/AGENTS.md", "/w", Some("/home/u")),
        "~/.tapir/agent/AGENTS.md"
    );
    assert_eq!(display_path("/etc/x", "/w", Some("/home/u")), "/etc/x");
    assert_eq!(display_path("/etc/x", "/w", None), "/etc/x");
    assert_eq!(display_path("/wx/y", "/w", None), "/wx/y");
    assert_eq!(display_path("/w/a/b", "/w/", None), "./a/b");
}

#[test]
fn paths_become_names_of_directories() {
    assert_eq!(encode_path("/home/ijanc/src/tapir"), "-home-ijanc-src-tapir");
    assert_eq!(encode_path(""), "");
    assert_eq!(encode_path("no slash"), "no slash");
    assert_eq!(
        session_dir("/home/u/.tapir", "/w/p"),
        "/home/u/.tapir/sessions/-w-p"
    );
}

#[test]
fn settings_prefer_the_environment() {
    let s = |t: &str| Some(t.to_string());
    assert_eq!(resolve_text(s("env"), s("file"), "default"), "env");
    assert_eq!(resolve_text(None, s("file"), "default"), "file");
    assert_eq!(resolve_text(None, None, DEFAULT_API_URL), "https://api.anthropic.com/v1/messages");
    assert_eq!(resolve_number(Some("100"), Some(5), DEFAULT_MAX_TOKENS), 100);
    assert_eq!(resolve_number(Some("many"), Some(5), DEFAULT_MAX_TOKENS), 5);
    assert_eq!(resolve_number(Some("4294967296"), None, DEFAULT_MAX_TOKENS), 16384);
    assert_eq!(resolve_number(Some("4294967295"), None, 0), u32::MAX);
    assert_eq!(resolve_number(None, None, 0), 0);
    assert_eq!(resolve_api_key(s("k"), s("f")), Ok("k".to_string()));
    assert_eq!(resolve_api_key(None, s("f")), Ok("f".to_string()));
    assert_eq!(resolve_api_key(None, None), Err(Error::NoApiKey));
}

#[test]
fn the_whole_prompt_is_made_once() {
    let skills = vec![Skill {
        name: "a".to_string(),
        description: "d".to_string(),
        path: "/p".to_string(),
    }];
    let mut prompt = Prompt {
        system_prompt: "base".to_string(),
        full_prompt: None,
    };
    assert_eq!(prompt.full_prompt(), "base");
    prompt.ensure_full_prompt(&skills);
    assert_eq!(
        prompt.full_prompt(),
        "base\n\n<available-skills>\n<skill name=\"a\" path=\"/p\">\nd\n</skill>\n</available-skills>"
    );
    prompt.ensure_full_prompt(&[]);
    assert!(prompt.full_prompt().contains("available-skills"));
    let mut bare = Prompt {
        system_prompt: "base".to_string(),
        full_prompt: None,
    };
    bare.ensure_full_prompt(&[]);
    assert_eq!(bare.full_prompt, Some("base".to_string()));
}

#[test]
fn arguments_are_read() {
    let args = |a: &[&str]| a.iter().map(|s| s.to_string()).collect::<Vec<String>>();
    assert_eq!(parse_args(&args(&[])), Invocation::Run { config_path: None });
    assert_eq!(parse_args(&args(&["-V"])), Invocation::ShowVersion);
    assert_eq!(parse_args(&args(&["-V", "x"])), Invocation::ShowVersion);
    assert_eq!(
        parse_args(&args(&["-c", "conf.json"])),
        Invocation::Run {
            config_path: Some("conf.json".to_string())
        }
    );
    assert_eq!(
        parse_args(&args(&["-c"])),
        Invocation::Refuse {
            lines: vec!["error: -c requires a path".to_string()]
        }
    );
    assert_eq!(
        parse_args(&args(&["-c", "a", "b"])),
        Invocation::Refuse {
            lines: vec!["error: unexpected argument: b".to_string()]
        }
    );
    assert_eq!(
        parse_args(&args(&["--help"])),
        Invocation::Refuse {
            lines: vec![
                "error: unknown argument: --help".to_string(),
                "usage: tapir [-V] [-c config.json]".to_string()
            ]
        }
    );
    assert_eq!(VERSION, "tapir v0.1.0");
}

#[test]
fn instructions_are_looked_for_from_the_root_down() {
    let strings = |items: &[&str]| items.iter().map(|s| s.to_string()).collect::<Vec<String>>();
    assert_eq!(
        context_dirs("/home/u/.tapir/agent", &strings(&["/", "/w"]), "/w/p"),
        strings(&["/home/u/.tapir/agent", "/", "/w", "/w/p"])
    );
    assert_eq!(
        context_dirs("/w", &strings(&["/", "/w", "/w/p"]), "/w/p/q"),
        strings(&["/w", "/", "/w/p", "/w/p/q"])
    );
    assert_eq!(context_dirs("/w", &strings(&["/"]), "/w"), strings(&["/w", "/"]));
    assert_eq!(context_dirs("/h", &vec![], "/"), strings(&["/h", "/"]));
}
