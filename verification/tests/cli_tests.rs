use wc_clone::cli::Cli;
use wc_clone::command::Command;

#[test]
fn test_fix_no_commands() {
    let cli = Cli {
        files: vec!["test_files/poem.txt".to_string()],
        lines: false,
        words: false,
        chars: false,
        bytes: false,
    };

    let out = cli.fix_no_commands();

    assert_eq!(
        out,
        Cli {
            files: vec!["test_files/poem.txt".to_string()],
            lines: true,
            words: true,
            chars: true,
            bytes: false,
        }
    );
}

#[test]
fn test_default_selection_excludes_bytes() {
    // Zero flags resolve to the conventional selection: lines, words and
    // characters, with bytes left out.
    let cli = Cli {
        files: vec![],
        lines: false,
        words: false,
        chars: false,
        bytes: false,
    };

    let out = cli.fix_no_commands().commands();

    assert_eq!(
        out,
        vec![Command::CountLines, Command::CountWords, Command::CountChars]
    );
}

#[test]
fn test_resolution_idempotent() {
    // Resolving an all-false flag set twice yields the same selection as
    // resolving it once.
    let make = || Cli {
        files: vec![],
        lines: false,
        words: false,
        chars: false,
        bytes: false,
    };

    let once = make().fix_no_commands();
    let twice = make().fix_no_commands().fix_no_commands();

    assert_eq!(once, twice);
}

#[test]
fn test_explicit_flags_kept() {
    // Any flag set means no defaulting: exactly the requested metrics are
    // selected, in canonical order.
    let cli = Cli {
        files: vec![],
        lines: false,
        words: false,
        chars: false,
        bytes: true,
    };

    let out = cli.fix_no_commands().commands();

    assert_eq!(out, vec![Command::CountBytes]);
}
