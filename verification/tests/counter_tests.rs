use wc_clone::command::Command;
use wc_clone::counter::count_bytes;
use wc_clone::counter::count_chars;
use wc_clone::counter::count_from_command;
use wc_clone::counter::count_lines;
use wc_clone::counter::count_words;
use wc_clone::counter::CommandCounts;
use wc_clone::counter::Counter;

// The text of test_files/poem.txt: nine lines, forty-four words,
// two hundred twenty-one characters.
fn poem() -> &'static str {
    "The fog comes on cat feet\nit sits and looks over town\nthe harbor lies below in mist\nsmall boats rest until dawn\nno sounds are heard around\nthe night is cool and slow\na lamp burns low\nthen onward it travels\nwandering away\n"
}

#[test]
fn test_count_lines() {
    let content: String = poem().to_string();

    let out = count_lines(&content);

    assert_eq!(out, 9);
}

#[test]
fn test_count_words() {
    let content: String = poem().to_string();

    let out = count_words(&content);

    assert_eq!(out, 44);
}

#[test]
fn test_count_chars() {
    let content: String = poem().to_string();

    let out = count_chars(&content);

    assert_eq!(out, 221);
}

#[test]
fn test_build() {
    let commands: Vec<Command> =
        vec![Command::CountLines, Command::CountWords, Command::CountChars];
    let out = Counter::from_contents("test_files/poem.txt".to_string(), poem(), commands);

    let file = "test_files/poem.txt".to_string();
    let counts = CommandCounts {
        lines: Some(9),
        words: Some(44),
        chars: Some(221),
        bytes: None,
    };

    assert_eq!(out, Counter { file, counts })
}

#[test]
fn test_counter_to_string() {
    let commands: Vec<Command> =
        vec![Command::CountLines, Command::CountWords, Command::CountChars];
    let counts = Counter::from_contents("test_files/poem.txt".to_string(), poem(), commands);

    let out = counts.to_string();

    assert_eq!(out, "   9  44 221 test_files/poem.txt")
}

#[test]
fn test_count_lines_edges() {
    assert_eq!(count_lines(""), 0);
    assert_eq!(count_lines("a"), 1);
    assert_eq!(count_lines("a\n"), 1);
    assert_eq!(count_lines("\n"), 1);
    assert_eq!(count_lines("\n\n"), 2);
    assert_eq!(count_lines("a\r\nb"), 2);
}

#[test]
fn test_count_words_edges() {
    assert_eq!(count_words(""), 0);
    assert_eq!(count_words("   "), 0);
    assert_eq!(count_words(" a b "), 2);
    assert_eq!(count_words("one\ttwo\nthree  four"), 4);
    assert_eq!(count_words("word"), 1);
}

#[test]
fn test_count_chars_not_bytes() {
    // One two-byte character: five code points, six bytes.
    let s = "h\u{e9}llo";
    assert_eq!(count_chars(s), 5);
    assert_eq!(count_bytes(s), 6);
}

#[test]
fn test_count_from_command_dispatch() {
    let s = "dog bark\nloud\nat us\n";
    assert_eq!(count_from_command(s, Command::CountLines), 3);
    assert_eq!(count_from_command(s, Command::CountWords), 5);
    assert_eq!(count_from_command(s, Command::CountChars), 20);
    assert_eq!(count_from_command(s, Command::CountBytes), 20);
}
