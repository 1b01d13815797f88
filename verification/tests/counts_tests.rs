use wc_clone::command::Command;
use wc_clone::counter::CommandCounts;
use wc_clone::counter::Counter;
use wc_clone::counts::merge_sum;
use wc_clone::counts::merge_sum_vec;
use wc_clone::counts::Counts;

// The text of test_files/poem.txt: nine lines, forty-four words,
// two hundred twenty-one characters.
fn poem() -> &'static str {
    "The fog comes on cat feet\nit sits and looks over town\nthe harbor lies below in mist\nsmall boats rest until dawn\nno sounds are heard around\nthe night is cool and slow\na lamp burns low\nthen onward it travels\nwandering away\n"
}

// The text of test_files/foo.txt: three lines, five words, twenty
// characters.
fn foo() -> &'static str {
    "dog bark\nloud\nat us\n"
}

fn default_commands() -> Vec<Command> {
    vec![Command::CountLines, Command::CountWords, Command::CountChars]
}

#[test]
fn test_merge_sum() {
    let map1 = CommandCounts {
        lines: Some(9),
        words: Some(44),
        chars: Some(221),
        bytes: None,
    };

    let map2 = CommandCounts {
        lines: Some(2),
        words: Some(6),
        chars: Some(24),
        bytes: None,
    };

    let out = merge_sum(&map1, &map2);

    assert_eq!(
        out,
        CommandCounts {
            lines: Some(11),
            words: Some(50),
            chars: Some(245),
            bytes: None,
        }
    )
}

#[test]
fn test_merge_sum_vec() {
    let map1 = CommandCounts {
        lines: Some(9),
        words: Some(44),
        chars: Some(221),
        bytes: None,
    };

    let map2 = CommandCounts {
        lines: Some(2),
        words: Some(6),
        chars: Some(24),
        bytes: None,
    };

    let maps = vec![map1, map2];

    let out = merge_sum_vec(maps);

    assert_eq!(
        out,
        CommandCounts {
            lines: Some(11),
            words: Some(50),
            chars: Some(245),
            bytes: None,
        }
    )
}

#[test]
fn test_merge_sum_commutative() {
    let a = CommandCounts {
        lines: Some(9),
        words: None,
        chars: Some(221),
        bytes: Some(7),
    };
    let b = CommandCounts {
        lines: Some(2),
        words: Some(6),
        chars: None,
        bytes: Some(3),
    };

    assert_eq!(merge_sum(&a, &b), merge_sum(&b, &a));
    assert_eq!(
        merge_sum(&a, &b),
        CommandCounts {
            lines: Some(11),
            words: Some(6),
            chars: Some(221),
            bytes: Some(10),
        }
    );
}

#[test]
fn test_merge_sum_vec_order_irrelevant() {
    let a = CommandCounts {
        lines: Some(9),
        words: Some(44),
        chars: Some(221),
        bytes: None,
    };
    let b = CommandCounts {
        lines: Some(3),
        words: Some(5),
        chars: Some(20),
        bytes: None,
    };

    assert_eq!(merge_sum_vec(vec![a, b]), merge_sum_vec(vec![b, a]));
}

#[test]
fn test_from_one_file() {
    let counter =
        Counter::from_contents("test_files/poem.txt".to_string(), poem(), default_commands());

    let out = Counts::from_counters(vec![counter]);

    assert_eq!(
        out,
        Counts {
            counts: vec![Counter::from_contents(
                "test_files/poem.txt".to_string(),
                poem(),
                default_commands()
            )]
        }
    )
}

#[test]
fn test_from_two_files() {
    let counters = vec![
        Counter::from_contents("test_files/poem.txt".to_string(), poem(), default_commands()),
        Counter::from_contents("test_files/foo.txt".to_string(), foo(), default_commands()),
    ];

    let out = Counts::from_counters(counters);

    assert_eq!(
        out,
        Counts {
            counts: vec![
                Counter::from_contents(
                    "test_files/poem.txt".to_string(),
                    poem(),
                    default_commands()
                ),
                Counter::from_contents(
                    "test_files/foo.txt".to_string(),
                    foo(),
                    default_commands()
                ),
                Counter {
                    file: "total".to_string(),
                    counts: CommandCounts {
                        lines: Some(12),
                        words: Some(49),
                        chars: Some(241),
                        bytes: None,
                    }
                }
            ]
        }
    )
}

#[test]
fn test_counts_one_file_to_string() {
    let counter =
        Counter::from_contents("test_files/poem.txt".to_string(), poem(), default_commands());

    let counts = Counts::from_counters(vec![counter]);

    let out = counts.to_string();

    assert_eq!(out, "   9  44 221 test_files/poem.txt")
}

#[test]
fn test_counts_two_files_to_string() {
    let counters = vec![
        Counter::from_contents("test_files/poem.txt".to_string(), poem(), default_commands()),
        Counter::from_contents("test_files/foo.txt".to_string(), foo(), default_commands()),
    ];

    let counts = Counts::from_counters(counters);

    let out = counts.to_string();

    assert_eq!(
        out,
        "   9  44 221 test_files/poem.txt\n   3   5  20 test_files/foo.txt\n  12  49 241 total"
    )
}

#[test]
fn test_empty_input_report() {
    // A zero-byte input yields all counts zero; the reference maximum of
    // zero signals the degenerate report, and the column width falls back
    // to the one-digit minimum.
    let counter = Counter::from_contents("empty.txt".to_string(), "", default_commands());
    assert_eq!(
        counter.counts,
        CommandCounts {
            lines: Some(0),
            words: Some(0),
            chars: Some(0),
            bytes: None,
        }
    );

    let counts = Counts::from_counters(vec![counter]);
    assert_eq!(counts.reference_max(), 0);
    assert_eq!(counts.to_string(), " 0 0 0 empty.txt");
}

#[test]
fn test_bytes_column() {
    let counter =
        Counter::from_contents("foo.txt".to_string(), foo(), vec![Command::CountBytes]);
    let counts = Counts::from_counters(vec![counter]);

    assert_eq!(counts.to_string(), " 20 foo.txt");
}

#[test]
fn test_label_whitespace_kept() {
    // Only the one final line break is removed from the report, so a
    // label's own trailing whitespace survives, and a single-entry report
    // reads exactly as the entry rendered alone.
    let make = || Counter {
        file: "x ".to_string(),
        counts: CommandCounts {
            lines: Some(1),
            words: None,
            chars: None,
            bytes: None,
        },
    };

    let report = Counts::from_counters(vec![make()]).to_string();
    assert_eq!(report, " 1 x ");
    assert_eq!(report, make().to_string());
}

#[test]
fn test_merge_sum_vec_permutation() {
    let a = CommandCounts {
        lines: Some(9),
        words: Some(44),
        chars: Some(221),
        bytes: None,
    };
    let b = CommandCounts {
        lines: Some(3),
        words: Some(5),
        chars: Some(20),
        bytes: Some(8),
    };
    let c = CommandCounts {
        lines: None,
        words: Some(2),
        chars: Some(4),
        bytes: Some(1),
    };

    let total = merge_sum_vec(vec![a, b, c]);
    assert_eq!(total, merge_sum_vec(vec![c, a, b]));
    assert_eq!(total, merge_sum_vec(vec![b, c, a]));
    assert_eq!(
        total,
        CommandCounts {
            lines: Some(12),
            words: Some(51),
            chars: Some(245),
            bytes: Some(9),
        }
    );
}

#[test]
fn test_no_entries_report() {
    // With no per-file entry at all, only the synthetic total remains and
    // it holds no counts.
    let counts = Counts::from_counters(vec![]);
    assert_eq!(counts.counts.len(), 1);
    assert_eq!(counts.counts[0].file, "total");
    assert_eq!(counts.reference_max(), 0);
    assert_eq!(counts.to_string(), " total");
}
