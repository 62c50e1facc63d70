use lazy::cli::Commands;
use lazy::commands::{build_image, dispatch_command, resume, rm, run, Effect, Event, Notice, State, Step};
use lazy::config::LazyConfig;
use lazy::utils::lazy_dockerfile;

fn config(env: &str) -> LazyConfig {
    LazyConfig {
        name: "web".to_string(),
        image_name: "alpine".to_string(),
        image_tag: "3.19".to_string(),
        image: "alpine:3.19".to_string(),
        dockerfile: "docker/Dockerfile".to_string(),
        env: env.to_string(),
    }
}

fn args(list: &[&str]) -> Vec<String> {
    list.iter().map(|l| l.to_string()).collect()
}

fn finished() -> Step {
    Step { state: State::Done, effect: Effect::Finish }
}

fn closing(notice: Notice) -> Step {
    Step { state: State::Closing, effect: Effect::Report(notice) }
}

#[test]
fn rm_arguments() {
    assert_eq!(rm::run(&config("")), args(&["rm", "web"]));
}

#[test]
fn build_arguments_with_a_dockerfile() {
    let (a, input) = build_image::run(&config(""), true);
    assert_eq!(a, args(&["build", "-f", "docker/Dockerfile", "-t", "alpine:3.19", "."]));
    assert_eq!(input, None);
}

#[test]
fn build_arguments_without_a_dockerfile() {
    let (a, input) = build_image::run(&config(""), false);
    assert_eq!(a, args(&["build", "-f", "-", "-t", "alpine:3.19", "."]));
    assert_eq!(input, Some(lazy_dockerfile("alpine:3.19")));
}

#[test]
fn run_arguments() {
    assert_eq!(run::query(&config("")), args(&["images", "-q", "alpine:3.19"]));
    assert_eq!(run::list(), args(&["ps"]));
    assert_eq!(run::run(&config(""), false), args(&["run", "-itd", "--name", "web", "alpine:3.19"]));
    assert_eq!(run::run(&config(""), true), args(&["run", "-itd", "--name", "web", "alpine:3.19"]));
    assert_eq!(
        run::run(&config(".env"), false),
        args(&["run", "-itd", "--name", "web", "alpine:3.19"])
    );
    assert_eq!(
        run::run(&config(".env"), true),
        args(&["run", "-itd", "--name", "web", "--env-file", ".env", "alpine:3.19"])
    );
}

#[test]
fn dispatch_rm_runs_the_engine() {
    let c = config("");
    let step = dispatch_command(Commands::Rm, &c);
    assert_eq!(
        step,
        Step { state: State::Removing, effect: Effect::Engine { args: args(&["rm", "web"]), stdin: None } }
    );
    assert_eq!(resume(&c, State::Removing, Event::Exited(true)), finished());
    assert_eq!(resume(&c, State::Removing, Event::Exited(false)), closing(Notice::RemoveFailed));
    assert_eq!(resume(&c, State::Removing, Event::Unavailable), closing(Notice::RemoveFailed));
    assert_eq!(resume(&c, State::Closing, Event::Done), finished());
}

#[test]
fn dispatch_build_with_a_dockerfile() {
    let c = config("");
    let step = dispatch_command(Commands::Build, &c);
    assert_eq!(
        step,
        Step { state: State::Locating, effect: Effect::Probe { path: "docker/Dockerfile".to_string() } }
    );
    let step = resume(&c, step.state, Event::Exists(true));
    assert_eq!(
        step,
        Step {
            state: State::Building,
            effect: Effect::Engine {
                args: args(&["build", "-f", "docker/Dockerfile", "-t", "alpine:3.19", "."]),
                stdin: None,
            },
        }
    );
    assert_eq!(resume(&c, State::Building, Event::Exited(true)), finished());
    assert_eq!(resume(&c, State::Building, Event::Exited(false)), closing(Notice::BuildFailed));
    assert_eq!(
        resume(&c, State::Building, Event::Unavailable),
        Step { state: State::Done, effect: Effect::Abort }
    );
}

#[test]
fn dispatch_build_without_a_dockerfile_feeds_the_default_one() {
    let c = config("");
    let step = resume(&c, State::Locating, Event::Exists(false));
    assert_eq!(
        step,
        Step {
            state: State::Building,
            effect: Effect::Engine {
                args: args(&["build", "-f", "-", "-t", "alpine:3.19", "."]),
                stdin: Some(lazy_dockerfile("alpine:3.19")),
            },
        }
    );
}

#[test]
fn run_without_an_image_warns_and_does_not_start() {
    let c = config(".env");
    let step = dispatch_command(Commands::Run, &c);
    assert_eq!(
        step,
        Step {
            state: State::Querying,
            effect: Effect::Capture { args: args(&["images", "-q", "alpine:3.19"]) },
        }
    );
    let step = resume(&c, step.state, Event::Output(Vec::new()));
    assert_eq!(step, closing(Notice::ImageMissing));
    let step = resume(&c, step.state, Event::Done);
    assert_eq!(step, finished());
    for event in [Event::Done, Event::Exited(true), Event::Exists(true), Event::Output(vec![1])] {
        assert_eq!(resume(&c, State::Closing, event.clone()), finished());
        assert_eq!(resume(&c, State::Done, event), finished());
    }
}

#[test]
fn run_with_an_image_starts_and_lists() {
    let c = config("");
    let step = resume(&c, State::Querying, Event::Output(b"0123456789ab\n".to_vec()));
    assert_eq!(
        step,
        Step {
            state: State::Starting,
            effect: Effect::Engine {
                args: args(&["run", "-itd", "--name", "web", "alpine:3.19"]),
                stdin: None,
            },
        }
    );
    let step = resume(&c, step.state, Event::Exited(true));
    assert_eq!(step, Step { state: State::Started, effect: Effect::Report(Notice::Started) });
    let step = resume(&c, step.state, Event::Done);
    assert_eq!(step, Step { state: State::Closing, effect: Effect::Show { args: args(&["ps"]) } });
    assert_eq!(resume(&c, step.state, Event::Done), finished());
}

#[test]
fn run_that_fails_to_start_reports_it() {
    let c = config("");
    assert_eq!(resume(&c, State::Starting, Event::Exited(false)), closing(Notice::StartFailed));
    assert_eq!(
        resume(&c, State::Starting, Event::Unavailable),
        Step { state: State::Done, effect: Effect::Abort }
    );
    assert_eq!(
        resume(&c, State::Querying, Event::Unavailable),
        Step { state: State::Done, effect: Effect::Abort }
    );
}

#[test]
fn run_probes_a_configured_environment_file() {
    let c = config("conf/.env");
    let step = resume(&c, State::Querying, Event::Output(vec![b'a']));
    assert_eq!(
        step,
        Step { state: State::Probing, effect: Effect::Probe { path: "conf/.env".to_string() } }
    );
    assert_eq!(
        resume(&c, State::Probing, Event::Exists(true)),
        Step {
            state: State::Starting,
            effect: Effect::Engine {
                args: args(&["run", "-itd", "--name", "web", "--env-file", "conf/.env", "alpine:3.19"]),
                stdin: None,
            },
        }
    );
    assert_eq!(
        resume(&c, State::Probing, Event::Exists(false)),
        Step {
            state: State::Starting,
            effect: Effect::Engine {
                args: args(&["run", "-itd", "--name", "web", "alpine:3.19"]),
                stdin: None,
            },
        }
    );
}

#[test]
fn dispatch_add_reads_then_writes() {
    let c = config("");
    let step = dispatch_command(Commands::Add { package: "vim".to_string() }, &c);
    assert_eq!(
        step,
        Step {
            state: State::Reading { package: "vim".to_string() },
            effect: Effect::Read { path: "docker/Dockerfile".to_string() },
        }
    );
    let found = args(&["FROM alpine AS build", "RUN apk add --no-cache curl"]);
    let step = resume(&c, step.state, Event::Lines(Some(found)));
    assert_eq!(
        step,
        Step {
            state: State::Closing,
            effect: Effect::Write {
                path: "docker/Dockerfile".to_string(),
                lines: args(&[
                    "FROM alpine AS build",
                    "RUN apk add --no-cache vim",
                    "RUN apk add --no-cache curl",
                ]),
            },
        }
    );
    assert_eq!(resume(&c, step.state, Event::Done), finished());
}

#[test]
fn dispatch_add_without_a_file_writes_the_edited_default() {
    let c = config("");
    let step = resume(&c, State::Reading { package: "vim".to_string() }, Event::Lines(None));
    match step.effect {
        Effect::Write { path, lines } => {
            assert_eq!(path, "docker/Dockerfile");
            assert_eq!(lines, lazy::commands::add::run(&c, "vim", None));
            assert_eq!(lines.len(), 9);
            assert_eq!(lines[1], "RUN apk add --no-cache vim");
        },
        other => panic!("unexpected effect {:?}", other),
    }
    assert_eq!(step.state, State::Closing);
}

#[test]
fn an_answer_that_does_not_fit_ends_the_command() {
    let c = config("");
    assert_eq!(resume(&c, State::Removing, Event::Exists(true)), finished());
    assert_eq!(resume(&c, State::Locating, Event::Exited(true)), finished());
    assert_eq!(resume(&c, State::Building, Event::Done), finished());
    assert_eq!(resume(&c, State::Querying, Event::Exited(true)), finished());
    assert_eq!(resume(&c, State::Probing, Event::Done), finished());
    assert_eq!(resume(&c, State::Starting, Event::Output(vec![])), finished());
    assert_eq!(resume(&c, State::Started, Event::Exited(true)), finished());
    assert_eq!(
        resume(&c, State::Reading { package: "x".to_string() }, Event::Done),
        finished()
    );
}

#[test]
fn only_add_asks_for_a_write() {
    let c = config(".env");
    let events = [
        Event::Exited(true),
        Event::Exited(false),
        Event::Output(vec![]),
        Event::Output(vec![1]),
        Event::Unavailable,
        Event::Exists(true),
        Event::Exists(false),
        Event::Lines(None),
        Event::Lines(Some(vec![])),
        Event::Done,
    ];
    for command in [Commands::Rm, Commands::Run, Commands::Build] {
        let first = dispatch_command(command, &c);
        assert!(!matches!(first.effect, Effect::Write { .. }));
        let mut states = vec![first.state];
        let mut rounds = 0;
        while rounds < 5 {
            let mut next = Vec::new();
            for state in &states {
                for event in &events {
                    let step = resume(&c, state.clone(), event.clone());
                    assert!(!matches!(step.effect, Effect::Write { .. }));
                    if !next.contains(&step.state) {
                        next.push(step.state);
                    }
                }
            }
            states = next;
            rounds += 1;
        }
    }
}
