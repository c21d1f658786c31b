use winebasin::shellwords::split_words;

fn agree(line: &[u8]) {
    assert_eq!(split_words(line), shlex::bytes::split(line));
}

fn some(items: &[&[u8]]) -> Option<Vec<Vec<u8>>> {
    Some(items.iter().map(|w| w.to_vec()).collect())
}

#[test]
fn blanks_part_words() {
    assert_eq!(split_words(b"foo baz"), some(&[b"foo", b"baz"]));
    assert_eq!(split_words(b"   foo \nbar\t"), some(&[b"foo", b"bar"]));
    assert_eq!(split_words(b""), some(&[]));
    assert_eq!(split_words(b"  \n"), some(&[]));
}

#[test]
fn quotes_join_what_they_hold() {
    assert_eq!(split_words(b"foo\"bar\"baz"), some(&[b"foobarbaz"]));
    assert_eq!(split_words(b"foo \"bar\"baz"), some(&[b"foo", b"barbaz"]));
    assert_eq!(split_words(b"'a b' \"c d\""), some(&[b"a b", b"c d"]));
    assert_eq!(split_words(b"''"), some(&[b""]));
    assert_eq!(split_words(b"\"\" a"), some(&[b"", b"a"]));
}

#[test]
fn backslash_keeps_the_next_byte() {
    assert_eq!(split_words(b"a\\ b"), some(&[b"a b"]));
    assert_eq!(split_words(b"foo\\\nbar"), some(&[b"foobar"]));
    assert_eq!(split_words(b"\"foo\\\nbar\""), some(&[b"foobar"]));
    assert_eq!(split_words(b"\"a\\$b\\`c\\\"d\\\\e\\f\""), some(&[b"a$b`c\"d\\e\\f"]));
    assert_eq!(split_words(b"'baz\\$b'"), some(&[b"baz\\$b"]));
}

#[test]
fn hash_opens_a_comment_at_the_start_of_a_word() {
    assert_eq!(split_words(b"foo #bar\nbaz"), some(&[b"foo", b"baz"]));
    assert_eq!(split_words(b"foo #bar"), some(&[b"foo"]));
    assert_eq!(split_words(b"foo#bar"), some(&[b"foo#bar"]));
}

#[test]
fn unfinished_lines_have_no_reading() {
    assert_eq!(split_words(b"'baz\\''"), None);
    assert_eq!(split_words(b"\\"), None);
    assert_eq!(split_words(b"\"\\"), None);
    assert_eq!(split_words(b"'\\"), None);
    assert_eq!(split_words(b"\""), None);
    assert_eq!(split_words(b"'"), None);
    assert_eq!(split_words(b"foo\"#bar"), None);
}

#[test]
fn reading_agrees_with_the_shell_lexer_on_short_lines() {
    let alphabet: &[u8] = b"a \t\n'\"\\$`#";
    for x in alphabet {
        agree(&[*x]);
        for y in alphabet {
            agree(&[*x, *y]);
            for z in alphabet {
                agree(&[*x, *y, *z]);
                for w in alphabet {
                    agree(&[*x, *y, *z, *w]);
                    agree(&[*x, *y, b'b', *z, *w]);
                }
            }
        }
    }
}
