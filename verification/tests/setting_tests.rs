use sconny::api::build_responses_body_json;
use sconny::api::format_api_error;
use sconny::api::ScyApi;
use sconny::api::ScyApiError;
use sconny::console::help_text;
use sconny::console::parse_console_request_from_args;
use sconny::console::repl_step;
use sconny::console::ConsoleMode;
use sconny::console::ReplAction;
use sconny::ollama::build_chat_body_json;
use sconny::ollama::OllamaApi;
use sconny::setting::apply_env_overrides;
use sconny::setting::apply_kv;
use sconny::setting::fill_env_defaults;
use sconny::setting::needs_os_release;
use sconny::setting::parse_bool;
use sconny::setting::parse_llm_service;
use sconny::setting::parse_loose_toml_kv;
use sconny::setting::parse_os;
use sconny::setting::parse_os_release;
use sconny::setting::strip_quotes;
use sconny::setting::EnvOverrides;
use sconny::setting::LlmService;
use sconny::setting::SconnySetting;
use sconny::setting::ScyOs;
use sconny::text::join_url;

#[test]
fn defaults_are_safe() {
    let s = SconnySetting::new();
    assert!(s.policy.dry_run);
    assert!(s.policy.require_confirmation);
    assert_eq!(s.policy.timeout_sec, 15);
    assert_eq!(s.llm_service, LlmService::OpenAI);
    assert_eq!(s.config_path, "sconny_config.toml");
    assert_eq!(s.env.os, ScyOs::Linux);
}

#[test]
fn parse_bool_accepts_the_documented_forms() {
    for v in ["1", "true", "YES", " y ", "On"] {
        assert_eq!(parse_bool(v), Some(true), "for {v:?}");
    }
    for v in ["0", "false", "No", "n", " OFF"] {
        assert_eq!(parse_bool(v), Some(false), "for {v:?}");
    }
    for v in ["", "2", "tru", "yess"] {
        assert_eq!(parse_bool(v), None, "for {v:?}");
    }
}

#[test]
fn parse_service_and_os_names() {
    assert_eq!(parse_llm_service(" OpenAI "), Some(LlmService::OpenAI));
    assert_eq!(parse_llm_service("gemini"), Some(LlmService::Gemini));
    assert_eq!(parse_llm_service("mistral"), None);
    assert_eq!(parse_os("WIN"), Some(ScyOs::Windows));
    assert_eq!(parse_os("windows"), Some(ScyOs::Windows));
    assert_eq!(parse_os(" linux"), Some(ScyOs::Linux));
    assert_eq!(parse_os("mac"), None);
}

#[test]
fn strip_quotes_removes_one_matching_pair() {
    assert_eq!(strip_quotes("\"hello\""), "hello");
    assert_eq!(strip_quotes("'hi'"), "hi");
    assert_eq!(strip_quotes("  \"spaced\"  "), "spaced");
    assert_eq!(strip_quotes("\"mismatch'"), "\"mismatch'");
    assert_eq!(strip_quotes("\""), "\"");
    assert_eq!(strip_quotes("plain"), "plain");
}

#[test]
fn loose_toml_parsing() {
    let contents = "\n\
        # a comment line\n\
        [section]\n\
        llm_service = \"openai\"  # trailing comment\n\
        model= 'llama3'\n\
        empty_value =\n\
        = empty_key\n\
        no_equals_here\n\
        timeout_sec = 30\n\
        dry_run=false\n";
    let kv = parse_loose_toml_kv(contents);
    let pairs: Vec<(&str, &str)> = kv.iter().map(|p| (p.0.as_str(), p.1.as_str())).collect();
    assert_eq!(
        pairs,
        vec![
            ("llm_service", "openai"),
            ("model", "llama3"),
            ("timeout_sec", "30"),
            ("dry_run", "false"),
        ]
    );
}

#[test]
fn apply_kv_sets_recognised_keys_last_wins() {
    let mut s = SconnySetting::new();
    let kv = parse_loose_toml_kv(
        "dry_run = false\nrequire_confirmation = off\ntimeout_sec = 30\n\
         model = llama3\nos = windows\nshell = /bin/zsh\n\
         timeout_sec = 45\nunknown_key = ignored\ntimeout_sec = bogus\n",
    );
    apply_kv(&mut s, &kv);
    assert!(!s.policy.dry_run);
    assert!(!s.policy.require_confirmation);
    // the last occurrence wins the key, and "bogus" does not parse,
    // so the default stays untouched
    assert_eq!(s.policy.timeout_sec, 15);
    assert_eq!(s.model.as_deref(), Some("llama3"));
    assert_eq!(s.env.os, ScyOs::Windows);
    assert_eq!(s.env.shell.as_deref(), Some("/bin/zsh"));
}

#[test]
fn timeout_values_at_the_integer_boundary() {
    let mut s = SconnySetting::new();
    apply_kv(&mut s, &parse_loose_toml_kv("timeout_sec = 18446744073709551615\n"));
    assert_eq!(s.policy.timeout_sec, u64::MAX);
    let mut s = SconnySetting::new();
    apply_kv(&mut s, &parse_loose_toml_kv("timeout_sec = 18446744073709551616\n"));
    assert_eq!(s.policy.timeout_sec, 15, "an overflowing value must be ignored");
    let mut s = SconnySetting::new();
    apply_kv(&mut s, &parse_loose_toml_kv("timeout_sec = -3\n"));
    assert_eq!(s.policy.timeout_sec, 15, "a negative value must be ignored");
}

#[test]
fn env_overrides_take_precedence_over_defaults() {
    let mut s = SconnySetting::new();
    let ov = EnvOverrides {
        llm_service: Some("gemini".to_string()),
        model: Some(" m ".to_string()),
        os: Some("linux".to_string()),
        shell: None,
        dry_run: Some("no".to_string()),
        require_confirmation: None,
        timeout_sec: Some("90".to_string()),
    };
    apply_env_overrides(&mut s, &ov);
    assert_eq!(s.llm_service, LlmService::Gemini);
    assert_eq!(s.model.as_deref(), Some("m"));
    assert_eq!(s.env.os, ScyOs::Linux);
    assert!(!s.policy.dry_run);
    assert!(s.policy.require_confirmation);
    assert_eq!(s.policy.timeout_sec, 90);
}

#[test]
fn os_release_fills_missing_fields_only() {
    let mut s = SconnySetting::new();
    s.env.distro_id = Some("custom".to_string());
    assert!(needs_os_release(&s.env));
    let osr = "# comment\nID=ubuntu\nVERSION_ID=\"22.04\"\nPRETTY_NAME=\"Ubuntu 22.04.3 LTS\"\n";
    fill_env_defaults(&mut s.env, None, Some("/bin/bash"), Some(osr));
    assert_eq!(s.env.distro_id.as_deref(), Some("custom"));
    assert_eq!(s.env.version_id.as_deref(), Some("22.04"));
    assert_eq!(s.env.pretty_name.as_deref(), Some("Ubuntu 22.04.3 LTS"));
    assert_eq!(s.env.shell.as_deref(), Some("/bin/bash"));
    assert!(!needs_os_release(&s.env));
}

#[test]
fn windows_shell_comes_from_comspec() {
    let mut s = SconnySetting::new();
    s.env.os = ScyOs::Windows;
    fill_env_defaults(
        &mut s.env,
        Some(r"C:\Windows\System32\cmd.exe"),
        Some("/bin/bash"),
        None,
    );
    assert_eq!(s.env.shell.as_deref(), Some(r"C:\Windows\System32\cmd.exe"));
}

#[test]
fn parse_os_release_keeps_order_and_unquotes() {
    let kv = parse_os_release("A=1\nB=\"two\"\n# skip\nC='three'\n");
    let pairs: Vec<(&str, &str)> = kv.iter().map(|p| (p.0.as_str(), p.1.as_str())).collect();
    assert_eq!(pairs, vec![("A", "1"), ("B", "two"), ("C", "three")]);
}

#[test]
fn console_args_select_the_mode() {
    let argv = |v: &[&str]| -> Vec<String> { v.iter().map(|s| s.to_string()).collect() };
    assert_eq!(parse_console_request_from_args(&argv(&["sconny"])), Ok(None));
    assert_eq!(parse_console_request_from_args(&argv(&["sconny", "--repl"])), Ok(None));
    assert_eq!(parse_console_request_from_args(&argv(&["sconny", "-i"])), Ok(None));
    assert_eq!(
        parse_console_request_from_args(&argv(&["sconny", "-h"])),
        Err(help_text())
    );
    let req = parse_console_request_from_args(&argv(&["sconny", "zip", " a.txt "]))
        .unwrap()
        .unwrap();
    assert_eq!(req.mode, ConsoleMode::OneShot);
    assert_eq!(req.text, "zip  a.txt");
    assert!(parse_console_request_from_args(&argv(&["sconny", " ", ""])).is_err());
}

#[test]
fn repl_lines_are_classified() {
    assert!(matches!(repl_step("   "), ReplAction::Ignore));
    assert!(matches!(repl_step(":q"), ReplAction::Quit));
    assert!(matches!(repl_step(" :quit "), ReplAction::Quit));
    assert!(matches!(repl_step("exit"), ReplAction::Quit));
    assert!(matches!(repl_step(":help"), ReplAction::ShowHelp));
    match repl_step("  list files  ") {
        ReplAction::Request(s) => assert_eq!(s, "list files"),
        other => panic!("unexpected action: {other:?}"),
    }
}

#[test]
fn api_defaults_and_overrides() {
    let api = ScyApi::new(None, None, None);
    assert_eq!(api.base_url, "https://api.openai.com");
    assert_eq!(api.model, "gpt-4.1");
    assert_eq!(api.timeout_secs, 60);
    assert!(!api.store);
    let api = ScyApi::new(Some("http://local:1/".to_string()), Some("m".to_string()), Some(5));
    assert_eq!(api.base_url, "http://local:1/");
    assert_eq!(api.model, "m");
    assert_eq!(api.timeout_secs, 5);
}

#[test]
fn url_join_trims_trailing_slashes() {
    assert_eq!(join_url("https://api.openai.com/", "/v1/responses"), "https://api.openai.com/v1/responses");
    assert_eq!(join_url("http://127.0.0.1:11434", "/api/chat"), "http://127.0.0.1:11434/api/chat");
    assert_eq!(join_url("http://x//", "/p"), "http://x/p");
}

#[test]
fn responses_body_is_exact() {
    let body = build_responses_body_json("gpt-4.1", "a \"sys\"", "do\nthis", false);
    assert_eq!(
        body,
        "{\"model\":\"gpt-4.1\",\"input\":[{\"role\":\"system\",\"content\":\"a \\\"sys\\\"\"},\
         {\"role\":\"user\",\"content\":\"do\\nthis\"}],\
         \"text\":{\"format\":{\"type\":\"json_object\"}},\"store\":false}"
    );
}

#[test]
fn chat_body_is_exact() {
    let body = build_chat_body_json("llama3", "sys", "hi\t");
    assert_eq!(
        body,
        "{\"model\":\"llama3\",\"stream\":false,\"messages\":[\
         {\"role\":\"system\",\"content\":\"sys\"},\
         {\"role\":\"user\",\"content\":\"hi\\t\"}]}"
    );
}

#[test]
fn ollama_client_keeps_its_configuration() {
    let api = OllamaApi::new("http://127.0.0.1:11434".to_string(), 30);
    assert_eq!(api.base_url, "http://127.0.0.1:11434");
    assert_eq!(api.timeout_secs, 30);
}

#[test]
fn api_errors_render_exactly() {
    assert_eq!(
        format_api_error(ScyApiError::MissingApiKey),
        "API error: Missing API key.\nHint: set OPENAI_API_KEY or SCONNY_OPENAI_API_KEY environment variable."
    );
    assert_eq!(
        format_api_error(ScyApiError::ParseFailed("failed to extract output_text".to_string())),
        "API error: Parse failed: failed to extract output_text"
    );
    assert_eq!(
        format_api_error(ScyApiError::Io("broken pipe".to_string())),
        "API error: IO error: broken pipe"
    );
    assert_eq!(
        format_api_error(ScyApiError::CommandFailed {
            code: Some(-7),
            stdout: "out".to_string(),
            stderr: "err".to_string(),
        }),
        "API error: curl/powershell command failed (code=Some(-7)).\n--- stdout ---\nout\n--- stderr ---\nerr"
    );
    assert_eq!(
        format_api_error(ScyApiError::CommandFailed {
            code: None,
            stdout: String::new(),
            stderr: String::new(),
        }),
        "API error: curl/powershell command failed (code=None).\n--- stdout ---\n\n--- stderr ---\n"
    );
}
