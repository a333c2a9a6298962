use nimi::error::Error;
use nimi::process_manager::service_manager::logger::{
    Drain, DrainEvent, DrainStep, LogLevel, LogRecord, Logger,
};
use nimi::process_manager::settings::{
    Logging, LoggingRaw, RestartMode, RunDirSearch, Settings, FIRST_RUN_NUMBER,
};

#[test]
fn stdout_lines_are_debug_and_stderr_lines_are_errors() {
    let out = Logger::Stdout.log_line("web", "listening");
    assert_eq!(
        out,
        LogRecord {
            level: LogLevel::Debug,
            target: "web".to_string(),
            line: "listening".to_string()
        }
    );
    let err = Logger::Stderr.log_line("web", "oops");
    assert_eq!(err.level, LogLevel::Error);
    assert_eq!(err.target, "web");
    assert_eq!(err.line, "oops");
    assert_eq!(Logger::Stdout.level(), LogLevel::Debug);
    assert_eq!(Logger::Stderr.level(), LogLevel::Error);
}

#[test]
fn each_stream_has_a_log_file_of_its_own() {
    assert_eq!(Logger::Stdout.stream_name(), "stdout");
    assert_eq!(Logger::Stderr.stream_name(), "stderr");
    assert_eq!(Logger::Stdout.logs_file_name("web"), "web.stdout.txt");
    assert_eq!(Logger::Stderr.logs_file_name("web"), "web.stderr.txt");
    assert_ne!(Logger::Stdout.logs_file_name("web"), Logger::Stderr.logs_file_name("web"));
    assert_ne!(Logger::Stdout.logs_file_name("web"), Logger::Stdout.logs_file_name("db"));
}

#[test]
fn log_file_is_created_only_when_a_directory_is_set() {
    assert_eq!(Logger::Stdout.create_logs_file(&None, "web"), None);
    assert_eq!(
        Logger::Stderr.create_logs_file(&Some("/logs/logs-3".to_string()), "web"),
        Some("/logs/logs-3/web.stderr.txt".to_string())
    );
}

#[test]
fn file_line_is_the_line_and_a_line_feed() {
    assert_eq!(Logger::write_log_file_line("hello"), b"hello\n".to_vec());
    assert_eq!(Logger::write_log_file_line(""), b"\n".to_vec());
    assert_eq!(Logger::write_log_file_line("é"), vec![0xc3, 0xa9, b'\n']);
}

#[test]
fn drain_needs_a_stream() {
    assert_eq!(
        Logger::Stdout.start(false, "web", &None),
        Err(Error::MissingStream("web".to_string()))
    );
    assert_eq!(
        Logger::Stdout.start(true, "web", &None),
        Ok(Drain { logger: Logger::Stdout, target: "web".to_string(), file: None })
    );
    assert_eq!(
        Logger::Stderr.start(true, "web", &Some("logs".to_string())),
        Ok(Drain {
            logger: Logger::Stderr,
            target: "web".to_string(),
            file: Some("logs/web.stderr.txt".to_string())
        })
    );
}

#[test]
fn drain_logs_lines_in_the_order_given() {
    let drain = Logger::Stdout.start(true, "web", &Some("logs".to_string())).unwrap();
    let mut logged = Vec::new();
    let mut written = Vec::new();
    for line in ["one", "two", "three"] {
        let step = drain.on_event(DrainEvent::Line(line.to_string()));
        assert!(step.goes_on);
        logged.push(step.record.unwrap().line);
        written.extend(step.file_bytes.unwrap());
    }
    assert_eq!(logged, vec!["one", "two", "three"]);
    assert_eq!(written, b"one\ntwo\nthree\n".to_vec());
    assert_eq!(
        drain.on_event(DrainEvent::End),
        DrainStep { record: None, file_bytes: None, goes_on: false }
    );
}

#[test]
fn drain_without_a_file_writes_nothing() {
    let drain = Logger::Stderr.start(true, "web", &None).unwrap();
    let step = drain.on_event(DrainEvent::Line("oops".to_string()));
    assert_eq!(step.file_bytes, None);
    assert_eq!(step.record.unwrap().level, LogLevel::Error);
}

#[test]
fn read_failure_is_logged_as_an_error_and_ends_the_drain() {
    let drain = Logger::Stdout.start(true, "web", &Some("logs".to_string())).unwrap();
    let step = drain.on_event(DrainEvent::ReadFailed("stream did not contain valid UTF-8".to_string()));
    assert_eq!(
        step,
        DrainStep {
            record: Some(LogRecord {
                level: LogLevel::Error,
                target: "web".to_string(),
                line: "stream did not contain valid UTF-8".to_string()
            }),
            file_bytes: Some(b"stream did not contain valid UTF-8\n".to_vec()),
            goes_on: false
        }
    );
}

#[test]
fn restart_modes_have_their_manifest_words() {
    assert_eq!(RestartMode::Never.name(), "never");
    assert_eq!(RestartMode::UpToCount.name(), "up-to-count");
    assert_eq!(RestartMode::Always.name(), "always");
    for mode in [RestartMode::Never, RestartMode::UpToCount, RestartMode::Always] {
        assert_eq!(RestartMode::from_name(mode.name()), Some(mode));
    }
    assert_eq!(RestartMode::from_name("Never"), None);
    assert_eq!(RestartMode::from_name("up_to_count"), None);
    assert_eq!(RestartMode::from_name(""), None);
}

#[test]
fn logging_directory_counts_only_while_enabled() {
    let on = Logging::from_raw(LoggingRaw { enable: true, logs_dir: "logs".to_string() });
    assert_eq!(on.logs_dir, Some("logs".to_string()));
    let off = Logging::from_raw(LoggingRaw { enable: false, logs_dir: "logs".to_string() });
    assert_eq!(off.logs_dir, None);
    assert_eq!(on.to_raw(), LoggingRaw { enable: true, logs_dir: "logs".to_string() });
    assert_eq!(off.to_raw(), LoggingRaw { enable: false, logs_dir: String::new() });
    assert_eq!(Logging::from_raw(on.to_raw()), on);
    assert_eq!(Logging::from_raw(off.to_raw()), off);
}

#[test]
fn run_directory_is_numbered_below_the_logs_directory() {
    assert_eq!(Logging::run_dir("/work", "logs", 0), "/work/logs/logs-0");
    assert_eq!(Logging::run_dir("/work", "logs", 12), "/work/logs/logs-12");
    assert_eq!(Logging::run_dir("/work", "/var/log/nimi", 3), "/var/log/nimi/logs-3");
}

#[test]
fn run_takes_the_smallest_number_that_is_free() {
    assert_eq!(FIRST_RUN_NUMBER, 0);
    assert_eq!(Logging::search_step(0, false), RunDirSearch::Take(0));
    assert_eq!(Logging::search_step(0, true), RunDirSearch::Look(1));
    assert_eq!(Logging::search_step(41, true), RunDirSearch::Look(42));
    assert_eq!(Logging::search_step(41, false), RunDirSearch::Take(41));
    assert_eq!(Logging::search_step(usize::MAX, true), RunDirSearch::GiveUp);
    assert_eq!(Logging::search_step(usize::MAX, false), RunDirSearch::Take(usize::MAX));

    let taken = [0usize, 1, 2, 4];
    let mut number = FIRST_RUN_NUMBER;
    let picked = loop {
        match Logging::search_step(number, taken.contains(&number)) {
            RunDirSearch::Take(free) => break Some(free),
            RunDirSearch::Look(next) => number = next,
            RunDirSearch::GiveUp => break None,
        }
    };
    assert_eq!(picked, Some(3));
}

#[test]
fn default_settings_never_restart_and_log_to_no_file() {
    let settings = Settings::default();
    assert_eq!(settings.restart.mode, RestartMode::Never);
    assert_eq!(settings.restart.time, 0);
    assert_eq!(settings.restart.count, 0);
    assert_eq!(settings.startup.run_on_startup, None);
    assert_eq!(settings.logging.logs_dir, None);
    assert_eq!(settings.duplicate(), settings);
    assert_eq!(RestartMode::default(), RestartMode::Never);
}
