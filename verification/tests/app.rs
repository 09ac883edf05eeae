use pixie_cli::app::{
    build_initial_messages, build_session, build_tools, expand_session_path, file_path,
    load_transcript, model_pattern, plan_prompt, prompt_source, resolve_app_mode,
    resolve_credentials, resolve_selected_model, resolve_session_target, resolve_thinking,
    session_file, session_id, session_id_or, skills_enabled, split_file_args, starting_messages,
    stdin_to_prompt, wants_resume, ModelChoice, PromptPlan, PromptSource, SessionTarget, SetupError, Surroundings,
};
use pixie_cli::cli::{AppMode, Args, InputFormat, OutputFormat, OutputMode};
use pixie_cli::types::{Message, ThinkingLevel};

fn strings(items: &[&str]) -> Vec<String> {
    items.iter().map(|s| s.to_string()).collect()
}

fn args() -> Args {
    Args {
        messages: Vec::new(),
        print: false,
        mode: "text".to_string(),
        output_format: "text".to_string(),
        input_format: "text".to_string(),
        model: None,
        provider: None,
        api_key: None,
        system_prompt: None,
        append_system_prompt: Vec::new(),
        thinking: None,
        continue_session: false,
        resume: None,
        session: None,
        session_id: None,
        permission_mode: None,
        dangerously_skip_permissions: false,
        no_session: false,
        tools: Vec::new(),
        exclude_tools: Vec::new(),
        no_tools: false,
        no_builtin_tools: false,
        no_cache: false,
        max_tokens: None,
        verbose: false,
    }
}

fn around() -> Surroundings {
    Surroundings {
        registry: strings(&["sonnet-4-6", "opus-4-6"]),
        resolves: true,
        thinking: None,
        coding: strings(&["read", "write", "edit", "bash"]),
        selected: Vec::new(),
        any_skills: false,
        env_api_key: Some("key".to_string()),
        env_auth_token: None,
        session_path: "/sessions/session.jsonl".to_string(),
        session_exists: false,
    }
}

#[test]
fn stdin_to_prompt_ignores_blank_input() {
    assert!(stdin_to_prompt(String::new()).is_none());
    assert!(stdin_to_prompt("   \n\t ".into()).is_none());
}

#[test]
fn stdin_to_prompt_wraps_nonempty_input_as_user_message() {
    let msg = stdin_to_prompt("explain this stack trace\n".into()).unwrap();
    match msg {
        Message::User(u) => assert_eq!(u.text_content(), "explain this stack trace\n"),
        _ => panic!("expected a user message"),
    }
}

#[test]
fn build_initial_messages_combines_positional_and_files() {
    let msg = build_initial_messages(&vec!["hello".to_string()], &vec!["FILE_BODY".to_string()])
        .unwrap();
    match msg {
        Message::User(u) => {
            let t = u.text_content();
            assert!(t.contains("hello"));
            assert!(t.contains("FILE_BODY"));
            assert_eq!(t, "hello\n\n@file[0]\nFILE_BODY");
        }
        _ => panic!("expected a user message"),
    }
}

#[test]
fn initial_messages_number_the_files() {
    let msg = build_initial_messages(&strings(&[" ", ""]), &strings(&["A", "B"])).unwrap();
    match msg {
        Message::User(u) => assert_eq!(u.text_content(), "@file[0]\nA\n\n@file[1]\nB"),
        _ => panic!("expected a user message"),
    }
    assert!(build_initial_messages(&strings(&["  ", "\n"]), &Vec::new()).is_none());
    assert!(build_initial_messages(&Vec::new(), &Vec::new()).is_none());
}

#[test]
fn wire_formats_come_before_the_terminal() {
    let mut a = args();
    assert_eq!(resolve_app_mode(&a, true), AppMode::Interactive);
    assert_eq!(resolve_app_mode(&a, false), AppMode::Print(OutputMode::Text));
    a.print = true;
    a.mode = "json".to_string();
    assert_eq!(resolve_app_mode(&a, true), AppMode::Print(OutputMode::Json));
    a.mode = "yaml".to_string();
    assert_eq!(resolve_app_mode(&a, true), AppMode::Print(OutputMode::Text));
    a.output_format = " stream-json\n".to_string();
    assert_eq!(resolve_app_mode(&a, true), AppMode::StreamJsonOneShot);
    a.input_format = "stream-json".to_string();
    assert_eq!(resolve_app_mode(&a, true), AppMode::StreamJsonPersistent);
}

#[test]
fn formats_are_lenient() {
    assert_eq!(OutputMode::parse("text"), Some(OutputMode::Text));
    assert_eq!(OutputMode::parse("json"), Some(OutputMode::Json));
    assert_eq!(OutputMode::parse(" json"), None);
    assert_eq!(OutputFormat::parse("\tstream-json "), OutputFormat::StreamJson);
    assert_eq!(OutputFormat::parse("Stream-json"), OutputFormat::Text);
    assert_eq!(InputFormat::parse("stream-json"), InputFormat::StreamJson);
    assert_eq!(InputFormat::parse(""), InputFormat::default());
    assert_eq!(OutputFormat::default(), OutputFormat::Text);
    assert_eq!(args().output_format(), OutputFormat::Text);
    assert_eq!(args().input_format(), InputFormat::Text);
}

#[test]
fn file_arguments_are_parted_from_the_rest() {
    let (files, rest) =
        split_file_args(strings(&["@a.md", "-p", "@@b", "@", "@é", "mail@host", "@a.md"]));
    assert_eq!(files, strings(&["@a.md", "@é", "@a.md"]));
    assert_eq!(rest, strings(&["-p", "@@b", "@", "mail@host"]));
    assert_eq!(file_path("@é.txt"), "é.txt");
}

#[test]
fn prompts_come_from_the_command_line_first() {
    assert_eq!(prompt_source(true, false), PromptSource::CommandLine);
    assert_eq!(prompt_source(false, false), PromptSource::Stdin);
    assert_eq!(prompt_source(false, true), PromptSource::Missing);
}

#[test]
fn empty_variables_are_no_credentials() {
    let mut a = args();
    let key = Some("env-key".to_string());
    let empty = Some(String::new());
    let token = Some("token".to_string());
    assert_eq!(
        resolve_credentials(&a, &key, &token),
        (Some("env-key".to_string()), Some("token".to_string()))
    );
    assert_eq!(resolve_credentials(&a, &empty, &empty), (None, None));
    a.api_key = Some(String::new());
    assert_eq!(resolve_credentials(&a, &key, &None), (Some(String::new()), None));
}

#[test]
fn excluded_tools_are_left_out() {
    let coding = strings(&["read", "write", "edit", "bash"]);
    let selected = strings(&["grep", "bash", "bash"]);
    let mut a = args();
    assert_eq!(build_tools(&a, &coding, &selected), coding);
    a.exclude_tools = strings(&["bash"]);
    assert_eq!(build_tools(&a, &coding, &selected), strings(&["read", "write", "edit"]));
    a.tools = strings(&["grep"]);
    assert_eq!(build_tools(&a, &coding, &selected), strings(&["grep"]));
    a.no_builtin_tools = true;
    assert!(build_tools(&a, &coding, &selected).is_empty());
}

#[test]
fn model_patterns_join_provider_and_model() {
    let registry = strings(&["first", "second"]);
    let mut a = args();
    assert_eq!(model_pattern(&a, &registry), "first");
    a.model = Some("opus".to_string());
    assert_eq!(model_pattern(&a, &registry), "opus");
    a.provider = Some("anthropic".to_string());
    assert_eq!(model_pattern(&a, &registry), "anthropic/opus");
    a.model = None;
    assert_eq!(model_pattern(&a, &registry), "anthropic");
}

#[test]
fn unknown_models_are_reported() {
    let registry = strings(&["first", "second"]);
    let mut a = args();
    assert!(matches!(resolve_selected_model(&a, &registry, false), Ok(ModelChoice::First)));
    assert!(matches!(resolve_selected_model(&a, &registry, true), Ok(ModelChoice::Resolved)));
    a.model = Some("gpt".to_string());
    let error = resolve_selected_model(&a, &registry, false).unwrap_err();
    assert_eq!(error.message(), "Could not resolve model 'gpt'. Available: first, second");
}

#[test]
fn thinking_falls_back_to_medium() {
    let mut a = args();
    assert_eq!(resolve_thinking(&a, None), ThinkingLevel::Medium);
    assert_eq!(resolve_thinking(&a, Some(ThinkingLevel::High)), ThinkingLevel::Medium);
    a.thinking = Some("xhigh".to_string());
    assert_eq!(resolve_thinking(&a, Some(ThinkingLevel::XHigh)), ThinkingLevel::XHigh);
    a.thinking = Some("loud".to_string());
    assert_eq!(resolve_thinking(&a, None), ThinkingLevel::Medium);
}

#[test]
fn session_ids_come_from_the_command_line_first() {
    let mut a = args();
    assert_eq!(session_id_or(&a, "fresh".to_string()), "fresh");
    a.resume = Some(String::new());
    assert!(a.resume_requested());
    assert_eq!(a.resume_id(), None);
    assert_eq!(session_id_or(&a, "fresh".to_string()), "fresh");
    a.resume = Some("r-1".to_string());
    assert_eq!(a.resume_id(), Some("r-1"));
    assert_eq!(session_id(&a), "r-1");
    a.session_id = Some("s-1".to_string());
    assert_eq!(session_id(&a), "s-1");
}

#[test]
fn fresh_session_ids_are_random_and_hyphenated() {
    let id = session_id(&args());
    assert_eq!(id.len(), 36);
    let bytes = id.as_bytes();
    for (i, b) in bytes.iter().enumerate() {
        if i == 8 || i == 13 || i == 18 || i == 23 {
            assert_eq!(*b, b'-');
        } else {
            assert!(b.is_ascii_digit() || (b'a'..=b'f').contains(b));
        }
    }
    assert_eq!(bytes[14], b'4');
    assert!(matches!(bytes[19], b'8' | b'9' | b'a' | b'b'));
    assert_ne!(id, session_id(&args()));
}

#[test]
fn permission_labels_default_to_bypass() {
    let mut a = args();
    assert_eq!(a.permission_mode_label(), "bypassPermissions");
    a.permission_mode = Some("plan".to_string());
    assert_eq!(a.permission_mode_label(), "plan");
    a.dangerously_skip_permissions = true;
    assert_eq!(a.permission_mode_label(), "bypassPermissions");
}

#[test]
fn session_targets_have_an_order() {
    let mut a = args();
    assert!(matches!(resolve_session_target(&a), SessionTarget::Default));
    assert!(!wants_resume(&a));
    a.resume = Some("r-1".to_string());
    match resolve_session_target(&a) {
        SessionTarget::InProject(file) => assert_eq!(file, "r-1.jsonl"),
        other => panic!("unexpected target {other:?}"),
    }
    assert!(wants_resume(&a));
    a.session = Some("~/s.jsonl".to_string());
    match resolve_session_target(&a) {
        SessionTarget::Given(sess) => assert_eq!(sess, "~/s.jsonl"),
        other => panic!("unexpected target {other:?}"),
    }
    a.no_session = true;
    assert!(matches!(resolve_session_target(&a), SessionTarget::Ephemeral));
    assert_eq!(session_file("x"), "x.jsonl");
    assert_eq!(expand_session_path("/abs", true), None);
    assert_eq!(expand_session_path("abc", false), Some("abc.jsonl".to_string()));
}

#[test]
fn only_a_named_session_file_must_exist() {
    let mut a = args();
    a.continue_session = true;
    let target = resolve_session_target(&a);
    assert!(matches!(load_transcript(&a, &target, false, "p"), Ok(false)));
    assert!(matches!(load_transcript(&a, &target, true, "p"), Ok(true)));
    a.session = Some("abc".to_string());
    let target = resolve_session_target(&a);
    let error = load_transcript(&a, &target, false, "/s/abc.jsonl").unwrap_err();
    assert_eq!(error.message(), "Session file not found: /s/abc.jsonl");
    assert!(matches!(load_transcript(&a, &target, true, "p"), Ok(true)));
    let fresh = args();
    let target = resolve_session_target(&fresh);
    assert!(matches!(load_transcript(&fresh, &target, true, "p"), Ok(false)));
}

#[test]
fn sessions_start_with_a_wanted_transcript_or_the_given_messages() {
    assert_eq!(starting_messages(true, Some(vec![1]), vec![2]), vec![1]);
    assert_eq!(starting_messages(true, None, vec![2]), vec![2]);
    assert_eq!(starting_messages(false, Some(vec![1]), vec![2]), vec![2]);
}

#[test]
fn skills_need_tools() {
    let mut a = args();
    assert!(skills_enabled(&a, true));
    assert!(!skills_enabled(&a, false));
    a.exclude_tools = strings(&["skill"]);
    assert!(!skills_enabled(&a, true));
    a.exclude_tools = Vec::new();
    a.no_tools = true;
    assert!(!skills_enabled(&a, true));
}

#[test]
fn selected_tools_are_the_only_ones() {
    let mut a = args();
    a.tools = strings(&["read"]);
    let mut env = around();
    env.selected = strings(&["read"]);
    env.any_skills = true;
    let plan = build_session(&a, &env).unwrap();
    assert_eq!(plan.tools, strings(&["read"]));
    assert!(!plan.skills);
    a.tools = strings(&["read", "skill"]);
    let plan = build_session(&a, &env).unwrap();
    assert_eq!(plan.tools, strings(&["read", "skill"]));
    assert!(plan.skills);
}

#[test]
fn system_prompts_are_replaced_or_extended() {
    let mut a = args();
    assert!(matches!(plan_prompt(&a), PromptPlan::Assemble { extra: None }));
    a.append_system_prompt = strings(&["one", "two"]);
    match plan_prompt(&a) {
        PromptPlan::Assemble { extra } => assert_eq!(extra.as_deref(), Some("one\n\ntwo")),
        other => panic!("unexpected plan {other:?}"),
    }
    a.system_prompt = Some("mine".to_string());
    match plan_prompt(&a) {
        PromptPlan::Replace(prompt) => assert_eq!(prompt, "mine"),
        other => panic!("unexpected plan {other:?}"),
    }
}

#[test]
fn sessions_are_planned() {
    let mut a = args();
    a.max_tokens = Some(1024);
    a.no_cache = true;
    a.exclude_tools = strings(&["write"]);
    a.session_id = Some("s-1".to_string());
    let mut env = around();
    env.any_skills = true;
    env.session_exists = true;
    let plan = build_session(&a, &env).unwrap();
    assert_eq!(plan.model, ModelChoice::Resolved);
    assert_eq!(plan.thinking, ThinkingLevel::Medium);
    assert_eq!(plan.tools, strings(&["read", "edit", "bash", "skill"]));
    assert!(plan.skills);
    assert_eq!(plan.api_key.as_deref(), Some("key"));
    assert_eq!(plan.auth_token, None);
    assert!(matches!(plan.target, SessionTarget::InProject(_)));
    assert!(plan.load);
    assert_eq!(plan.max_tokens, Some(1024));
    assert!(!plan.cache_control);
}

#[test]
fn sessions_fail_in_order() {
    let mut a = args();
    a.model = Some("gpt".to_string());
    a.session = Some("abc".to_string());
    let mut env = around();
    env.resolves = false;
    env.env_api_key = None;
    assert!(matches!(build_session(&a, &env), Err(SetupError::UnknownModel { .. })));
    env.resolves = true;
    let error = build_session(&a, &env).unwrap_err();
    assert!(matches!(error, SetupError::NoCredentials));
    assert_eq!(
        error.message(),
        "No Anthropic credentials found. Set the ANTHROPIC_API_KEY environment variable \
         (or ANTHROPIC_AUTH_TOKEN for a Bearer token), or pass --api-key <key>."
    );
    env.env_auth_token = Some("token".to_string());
    assert!(matches!(build_session(&a, &env), Err(SetupError::SessionNotFound { .. })));
    env.session_exists = true;
    assert!(build_session(&a, &env).unwrap().load);
}
