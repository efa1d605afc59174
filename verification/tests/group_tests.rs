use rush::env::Env;
use rush::group::{group, Command, GroupError, Invocation};
use rush::scanner::parse;
use rush::token::Token;

fn env_with(pairs: &[(&str, &str)]) -> Env {
    Env::from_pairs(
        pairs
            .iter()
            .map(|(n, v)| (n.to_string(), v.to_string()))
            .collect(),
    )
}

fn tokens_of(line: &str) -> Vec<Token> {
    let (tokens, err) = parse(line);
    assert_eq!(err, None);
    tokens
}

#[test]
fn empty_line_groups_to_empty_command() {
    let env = Env::new();
    assert_eq!(group(&tokens_of(""), &env), Ok(Command::Empty));
}

#[test]
fn single_word_groups_to_invocation() {
    let env = Env::new();
    let cmd = group(&tokens_of("ls"), &env);
    assert_eq!(
        cmd,
        Ok(Command::Invocation(Invocation {
            program: "ls".to_string(),
            args: vec![],
        }))
    );
}

#[test]
fn words_and_literals_become_program_and_args() {
    let env = Env::new();
    let cmd = group(&tokens_of(r#"echo "hello world" again"#), &env);
    assert_eq!(
        cmd,
        Ok(Command::Invocation(Invocation {
            program: "echo".to_string(),
            args: vec!["hello world".to_string(), "again".to_string()],
        }))
    );
}

#[test]
fn variable_resolves_at_grouping_time() {
    let env = env_with(&[("HOME", "/x")]);
    let cmd = group(&tokens_of("$HOME"), &env);
    assert_eq!(
        cmd,
        Ok(Command::Invocation(Invocation {
            program: "/x".to_string(),
            args: vec![],
        }))
    );
}

#[test]
fn unset_variable_resolves_to_empty_string() {
    let env = Env::new();
    let cmd = group(&tokens_of("echo $NOPE"), &env);
    assert_eq!(
        cmd,
        Ok(Command::Invocation(Invocation {
            program: "echo".to_string(),
            args: vec![String::new()],
        }))
    );
}

#[test]
fn earlier_binding_shadows_later_one() {
    let mut env = env_with(&[("A", "old")]);
    env.set("A".to_string(), "new".to_string());
    let cmd = group(&tokens_of("echo $A"), &env);
    assert_eq!(
        cmd,
        Ok(Command::Invocation(Invocation {
            program: "echo".to_string(),
            args: vec!["new".to_string()],
        }))
    );
}

#[test]
fn one_pipe_groups_to_two_stages() {
    let env = Env::new();
    let cmd = group(&tokens_of(r#"ls | grep "x""#), &env);
    assert_eq!(
        cmd,
        Ok(Command::Piped(vec![
            Invocation { program: "ls".to_string(), args: vec![] },
            Invocation {
                program: "grep".to_string(),
                args: vec!["x".to_string()],
            },
        ]))
    );
}

#[test]
fn n_pipes_group_to_n_plus_one_stages() {
    let env = Env::new();
    let cmd = group(&tokens_of("a | b | c | d"), &env);
    match cmd {
        Ok(Command::Piped(stages)) => {
            assert_eq!(stages.len(), 4);
            assert_eq!(stages[0].program, "a");
            assert_eq!(stages[1].program, "b");
            assert_eq!(stages[2].program, "c");
            assert_eq!(stages[3].program, "d");
        }
        other => panic!("expected a pipeline, got {:?}", other),
    }
}

#[test]
fn leading_pipe_is_rejected() {
    let env = Env::new();
    assert_eq!(group(&tokens_of("| ls"), &env), Err(GroupError::DanglingPipe));
}

#[test]
fn trailing_pipe_is_rejected() {
    let env = Env::new();
    assert_eq!(group(&tokens_of("ls | "), &env), Err(GroupError::DanglingPipe));
}

#[test]
fn adjacent_pipes_are_rejected() {
    let env = Env::new();
    assert_eq!(
        group(&tokens_of("ls | | wc"), &env),
        Err(GroupError::DanglingPipe)
    );
}

#[test]
fn substitution_token_is_rejected() {
    let env = Env::new();
    let tokens = vec![Token::Substitution("x".to_string(), vec![])];
    assert_eq!(
        group(&tokens, &env),
        Err(GroupError::UnsupportedSubstitution)
    );
}
