use core_node::git_utils::credentials::{
    default_identity_files, list_paths, non_ssh_answer, plan_for_url, plan_ssh_credentials,
    AllowedCredentials, ConnectionFacts, CredentialAnswer, CredentialSession, IdentityAgent,
    OfferedAgent, SshCredentialPlan, SshHostConfig, SshTarget,
};

const HOME: &str = "/home/peppy";

fn github() -> SshTarget {
    SshTarget { user: Some("git".to_owned()), host: "github.com".to_owned(), port: None }
}

fn agent_key() -> CredentialAnswer {
    CredentialAnswer::AgentKey("git".to_owned())
}

fn key_file(key: &str) -> CredentialAnswer {
    CredentialAnswer::KeyFile { user: "git".to_owned(), key: key.to_owned() }
}

/// A path in the `.ssh` directory.
fn ssh(name: &str) -> String {
    format!("{HOME}/.ssh/{name}")
}

fn present(names: &[&str]) -> Vec<String> {
    names.iter().map(|name| ssh(name)).collect()
}

fn plan_without_ssh(
    process_agent: Option<String>,
    home: &str,
    present: &Vec<String>,
) -> Result<SshCredentialPlan, String> {
    plan_ssh_credentials(
        "git".to_owned(),
        &github(),
        None,
        &process_agent,
        default_identity_files(Some(home)),
        present,
    )
}

fn plan_with_config(
    identity_agent: IdentityAgent,
    identity_files: Vec<String>,
    process_agent: Option<String>,
    present: &Vec<String>,
) -> Result<SshCredentialPlan, String> {
    plan_ssh_credentials(
        "git".to_owned(),
        &github(),
        Some(SshHostConfig { identity_agent, identity_files }),
        &process_agent,
        vec!["/never/offered".to_owned()],
        present,
    )
}

#[test]
fn without_ssh_the_environment_agent_leads_and_the_default_identities_follow() {
    let socket = format!("{HOME}/agent.sock");
    let plan = plan_without_ssh(Some(socket.clone()), HOME, &present(&["id_rsa"])).unwrap();

    assert_eq!(plan.agent, OfferedAgent::Socket(socket));
    assert_eq!(plan.key_files, vec![ssh("id_rsa")]);
    assert_eq!(plan.absent_key_files, vec![ssh("id_ed25519"), ssh("id_ecdsa")]);
    assert_eq!(plan.answer(0, true), agent_key());
    assert_eq!(plan.answer(1, true), key_file(&ssh("id_rsa")));
    assert!(matches!(plan.answer(2, true), CredentialAnswer::Refuse(_)));
}

#[test]
fn the_configured_identity_files_replace_the_defaults_in_their_order() {
    let files = vec![ssh("work"), ssh("typo"), ssh("home")];
    let plan = plan_with_config(
        IdentityAgent::FromEnvironment,
        files,
        None,
        &present(&["work", "home"]),
    )
    .unwrap();

    assert_eq!(plan.agent, OfferedAgent::Unset);
    assert_eq!(plan.key_files, vec![ssh("work"), ssh("home")]);
    assert_eq!(plan.absent_key_files, vec![ssh("typo")]);
    assert_eq!(plan.answer(0, false), key_file(&ssh("work")));
    assert_eq!(plan.answer(1, false), key_file(&ssh("home")));
}

#[test]
fn the_agent_the_configuration_selects_is_offered_when_the_process_is_bound_to_it() {
    let socket = "/run/agent.sock".to_owned();
    let plan = plan_with_config(
        IdentityAgent::Socket(socket.clone()),
        Vec::new(),
        Some(socket.clone()),
        &Vec::new(),
    )
    .unwrap();
    assert_eq!(plan.agent, OfferedAgent::Socket(socket));
    assert_eq!(plan.answer(0, true), agent_key());
}

#[test]
fn the_selected_agent_is_compared_by_the_components_of_its_path() {
    for (selected, bound) in [
        ("/run//agent.sock", "/run/agent.sock"),
        ("/run/agent.sock", "/run/./agent.sock/"),
    ] {
        let plan = plan_with_config(
            IdentityAgent::Socket(selected.to_owned()),
            Vec::new(),
            Some(bound.to_owned()),
            &Vec::new(),
        )
        .unwrap();
        assert_eq!(plan.agent, OfferedAgent::Socket(selected.to_owned()));
    }
    assert!(plan_with_config(
        IdentityAgent::Socket("/run/agent.sock".to_owned()),
        Vec::new(),
        Some("run/agent.sock".to_owned()),
        &Vec::new(),
    )
    .is_err());
}

#[test]
fn an_agent_the_process_is_not_bound_to_is_refused_by_name() {
    let selected = "/run/1password.sock".to_owned();
    let refusal = plan_with_config(
        IdentityAgent::Socket(selected.clone()),
        Vec::new(),
        Some("/run/launchd.sock".to_owned()),
        &Vec::new(),
    )
    .unwrap_err();
    assert_eq!(
        refusal,
        "~/.ssh/config selects the ssh agent at /run/1password.sock for github.com \
         (IdentityAgent), but this daemon is bound to the agent at /run/launchd.sock for its \
         lifetime: when it starts it binds the agent ssh selects for a host with no \
         host-specific configuration. Give every host that IdentityAgent (a `Host *` block) \
         and restart the daemon"
    );

    let refusal =
        plan_with_config(IdentityAgent::Socket(selected), Vec::new(), None, &Vec::new())
            .unwrap_err();
    assert!(refusal.contains("bound to no agent (SSH_AUTH_SOCK is unset)"), "{refusal}");
}

#[test]
fn a_disabled_agent_is_never_offered() {
    let plan = plan_with_config(
        IdentityAgent::Disabled,
        vec![ssh("id_rsa")],
        Some(format!("{HOME}/agent.sock")),
        &present(&["id_rsa"]),
    )
    .unwrap();
    assert_eq!(plan.agent, OfferedAgent::Disabled);
    assert_eq!(plan.answer(0, true), key_file(&ssh("id_rsa")));
}

#[test]
fn the_refusal_names_what_was_offered_and_what_was_not() {
    let socket = format!("{HOME}/agent.sock");
    let plan = plan_without_ssh(Some(socket.clone()), HOME, &present(&["id_rsa"])).unwrap();

    assert_eq!(
        plan.answer(2, true),
        CredentialAnswer::Refuse(format!(
            "the remote refused every credential peppy holds for git@github.com: the keys \
             in the ssh agent at {}, and the identity files {} ({}, {} do not exist as \
             files); load a key the remote accepts into the agent, or keep an unencrypted \
             identity file at one of those paths",
            socket,
            ssh("id_rsa"),
            ssh("id_ed25519"),
            ssh("id_ecdsa"),
        ))
    );
}

#[test]
fn a_missing_agent_socket_is_named_as_such() {
    let socket = format!("{HOME}/gone.sock");
    let plan = plan_without_ssh(Some(socket.clone()), HOME, &Vec::new()).unwrap();
    let CredentialAnswer::Refuse(refusal) = plan.answer(1, false) else {
        panic!("the second request has nothing left to offer");
    };
    assert!(
        refusal.starts_with(&format!(
            "the remote refused every credential peppy holds for git@github.com: the ssh \
             agent at {}, whose socket does not exist, and no identity file (",
            socket
        )),
        "{refusal}"
    );
}

#[test]
fn a_connection_with_nothing_to_offer_refuses_the_first_request() {
    let plan =
        plan_with_config(IdentityAgent::Disabled, Vec::new(), None, &Vec::new()).unwrap();
    assert_eq!(
        plan.answer(0, false),
        CredentialAnswer::Refuse(
            "peppy holds no credential for git@github.com: no ssh agent (IdentityAgent \
             none), and no identity file (the configuration names none); load a key the \
             remote accepts into the agent, or keep an unencrypted identity file at one of \
             those paths"
                .to_owned()
        )
    );

    let plan = plan_without_ssh(None, "/nonexistent", &Vec::new()).unwrap();
    let CredentialAnswer::Refuse(refusal) = plan.answer(0, false) else {
        panic!("nothing to offer");
    };
    assert!(
        refusal.starts_with(
            "peppy holds no credential for git@github.com: no ssh agent (SSH_AUTH_SOCK is \
             unset), and no identity file (/nonexistent/.ssh/id_ed25519, "
        ),
        "{refusal}"
    );
}

fn allowed(ssh_key: bool, username: bool, password: bool) -> AllowedCredentials {
    AllowedCredentials { ssh_key, username, password }
}

#[test]
fn username_only_requests_answer_the_user_git_would_auth_as() {
    let username_only = allowed(false, true, false);
    assert_eq!(
        non_ssh_answer(Some("peppy"), username_only),
        CredentialAnswer::Username("peppy".to_owned())
    );
    assert_eq!(
        non_ssh_answer(None, username_only),
        CredentialAnswer::Username("git".to_owned())
    );
}

#[test]
fn password_requests_refuse_with_the_embedded_url_hint() {
    assert_eq!(
        non_ssh_answer(Some("peppy"), allowed(false, false, true)),
        CredentialAnswer::Refuse(
            "peppy authenticates git over ssh through the ssh agent and identity files, \
             and offers no other credentials; embed them in the repository URL instead"
                .to_owned()
        )
    );
}

#[test]
fn plans_are_built_for_ssh_urls_only() {
    let facts = ConnectionFacts {
        target: None,
        host_config: Ok(None),
        auth_sock: None,
        home: None,
        present: Vec::new(),
    };
    let refusal =
        plan_for_url("https://github.com/Peppy-bot/nodes-hub.git", "git".to_owned(), facts)
            .unwrap_err();
    assert_eq!(
        refusal,
        "https://github.com/Peppy-bot/nodes-hub.git is not an ssh URL peppy can read a host \
         from"
    );
}

#[test]
fn a_blank_variable_names_no_agent() {
    let facts = ConnectionFacts {
        target: Some(github()),
        host_config: Ok(None),
        auth_sock: Some(String::new()),
        home: Some(HOME.to_owned()),
        present: present(&["id_ecdsa"]),
    };
    let plan = plan_for_url("git@github.com:x/y.git", "git".to_owned(), facts).unwrap();
    assert_eq!(plan.agent, OfferedAgent::Unset);
    assert_eq!(plan.key_files, vec![ssh("id_ecdsa")]);
}

#[test]
fn the_default_identities_stand_in_the_home_directory() {
    assert_eq!(
        default_identity_files(Some(HOME)),
        vec![ssh("id_ed25519"), ssh("id_ecdsa"), ssh("id_rsa")]
    );
    assert!(default_identity_files(None).is_empty());
    assert_eq!(list_paths(&vec!["/a".to_owned(), "/b".to_owned()]), "/a, /b");
}

#[test]
fn a_session_offers_each_credential_once() {
    let mut session = CredentialSession::new();
    let ask = allowed(true, false, false);
    assert!(session.needs_plan(ask));
    session.set_plan(plan_without_ssh(
        Some("/run/agent.sock".to_owned()),
        HOME,
        &present(&["id_rsa"]),
    ));
    assert!(!session.needs_plan(ask));
    assert_eq!(session.next(None, ask, true), agent_key());
    assert_eq!(session.next(None, ask, true), key_file(&ssh("id_rsa")));
    assert!(matches!(session.next(None, ask, true), CredentialAnswer::Refuse(_)));
    assert!(matches!(session.next(None, ask, true), CredentialAnswer::Refuse(_)));
}

#[test]
fn a_session_without_a_plan_refuses_with_its_reason() {
    let mut session = CredentialSession::new();
    let ask = allowed(true, false, false);
    session.set_plan(Err("no host".to_owned()));
    assert_eq!(session.next(None, ask, false), CredentialAnswer::Refuse("no host".to_owned()));
}
