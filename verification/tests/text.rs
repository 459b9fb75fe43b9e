use helix_view::history::History;
use helix_view::selection::Range;
use helix_view::selection::Selection;
use helix_view::text::Rope;
use helix_view::textobject_menu::textobject_change;
use helix_view::transaction::ChangeSet;
use helix_view::transaction::Operation;
use helix_view::transaction::Transaction;

#[test]
fn lines_and_positions() {
    let text = Rope::from_str("ab\ncd\n\nef");
    assert_eq!(text.len_chars(), 9);
    assert_eq!(text.len_lines(), 4);
    assert_eq!(text.char_to_line(0), 0);
    assert_eq!(text.char_to_line(2), 0);
    assert_eq!(text.char_to_line(3), 1);
    assert_eq!(text.char_to_line(9), 3);
    assert_eq!(text.line_to_char(0), 0);
    assert_eq!(text.line_to_char(1), 3);
    assert_eq!(text.line_to_char(3), 7);
    assert_eq!(text.line_to_char(4), 9);
    let wide = Rope::from_str("aé\n€𝄞");
    assert_eq!(wide.char_to_byte(2), 3);
    assert_eq!(wide.char_to_byte(5), 11);
    assert_eq!(wide.line_to_byte(1), 4);
    assert_eq!(Rope::from_str("").len_lines(), 1);
}

#[test]
fn cursor_position_newly_opened_file() {
    let first = |content: &str| Range::point(0).min_width_1(&Rope::from_str(content));
    assert_eq!(first("foo"), Range { anchor: 0, head: 1 });
    assert_eq!(first("👨‍👩‍👧‍👦 foo"), Range { anchor: 0, head: 7 });
    assert_eq!(first(""), Range { anchor: 0, head: 0 });
}

#[test]
fn grapheme_boundaries() {
    let text = Rope::from_str("e\u{301}x");
    assert_eq!(text.next_grapheme_boundary(0), 2);
    assert_eq!(text.next_grapheme_boundary(2), 3);
    assert_eq!(text.next_grapheme_boundary(3), 3);
    assert_eq!(text.prev_grapheme_boundary(3), 2);
    assert_eq!(text.prev_grapheme_boundary(2), 0);
    assert_eq!(text.prev_grapheme_boundary(0), 0);
}

#[test]
fn ranges() {
    let text = Rope::from_str("hello\nworld");
    let r = Range { anchor: 8, head: 2 };
    assert_eq!(r.from(), 2);
    assert_eq!(r.to(), 8);
    assert_eq!(r.cursor(&text), 2);
    assert_eq!(Range { anchor: 2, head: 8 }.cursor(&text), 7);
    assert_eq!(Range { anchor: 2, head: 8 }.cursor_line(&text), 1);
    assert_eq!(r.put_cursor(&text, 4, false), Range::point(4));
    assert_eq!(
        Range { anchor: 2, head: 5 }.put_cursor(&text, 0, true),
        Range { anchor: 3, head: 0 }
    );
    assert_eq!(
        Range { anchor: 5, head: 2 }.put_cursor(&text, 7, true),
        Range { anchor: 4, head: 8 }
    );
    let s = Selection::single(1, 3);
    assert_eq!(s.primary(), Range { anchor: 1, head: 3 });
    assert_eq!(Selection::point(4).primary(), Range::point(4));
    assert_eq!(s.clone().ranges, s.ranges);
}

#[test]
fn changed_lines_become_a_range() {
    let text = Rope::from_str("a\nb\nc\nd\n");
    let forward = Range { anchor: 0, head: 1 };
    let backward = Range { anchor: 1, head: 0 };
    assert_eq!(textobject_change(&text, forward, None), forward);
    assert_eq!(
        textobject_change(&text, forward, Some((1, 3))),
        Range { anchor: 2, head: 6 }
    );
    assert_eq!(
        textobject_change(&text, backward, Some((1, 3))),
        Range { anchor: 6, head: 2 }
    );
}

fn change(changes: Vec<Operation>, len: usize, len_after: usize) -> Transaction {
    Transaction { changes: ChangeSet { changes, len, len_after }, selection: None }
}

/// Applies a change to a text.
fn apply(t: &Transaction, text: &str) -> String {
    let chars: Vec<char> = text.chars().collect();
    let mut at = 0;
    let mut out = String::new();
    for op in &t.changes.changes {
        match op {
            Operation::Retain(n) => {
                out.extend(&chars[at..at + n]);
                at += n;
            }
            Operation::Delete(n) => at += n,
            Operation::Insert(s) => out.push_str(s),
        }
    }
    out.extend(&chars[at..]);
    out
}

#[test]
fn composing_is_applying_one_after_the_other() {
    let a = change(
        vec![
            Operation::Retain(2),
            Operation::Insert("XY".to_string()),
            Operation::Delete(1),
            Operation::Retain(2),
        ],
        5,
        6,
    );
    let b = change(
        vec![
            Operation::Delete(1),
            Operation::Retain(2),
            Operation::Insert("z".to_string()),
            Operation::Delete(2),
            Operation::Retain(1),
        ],
        6,
        4,
    );
    let text = "hello";
    let once = apply(&a, text);
    assert_eq!(once, "heXYlo");
    let twice = apply(&b, &once);
    let both = a.compose(b);
    assert_eq!(apply(&both, text), twice);
    assert_eq!(both.changes.len, 5);
    assert_eq!(both.changes.len_after, 4);
}

#[test]
fn history_gives_the_changes_since_a_revision() {
    let mut history = History::default();
    assert_eq!(history.current_revision(), 0);
    assert!(history.changes_since(0).is_none());
    history.commit_changeset(change(vec![Operation::Insert("ab".to_string())], 0, 2));
    history.commit_changeset(change(
        vec![Operation::Retain(2), Operation::Insert("c".to_string())],
        2,
        3,
    ));
    assert_eq!(history.current_revision(), 2);
    let all = history.changes_since(0).unwrap();
    assert_eq!(apply(&all, ""), "abc");
    let last = history.changes_since(1).unwrap();
    assert_eq!(apply(&last, "ab"), "abc");
    assert!(history.changes_since(2).is_none());
}

#[test]
fn commits_are_put_together() {
    let steps = |t: &Transaction| format!("{:?}", t.changes.changes);
    let mut history = History::default();
    let first = change(vec![Operation::Retain(1), Operation::Insert("x".to_string())], 1, 2);
    let first_steps = steps(&first);
    history.commit_changeset(first);
    assert_eq!(steps(&history.changes_since(0).unwrap()), first_steps);
    assert!(history.changes_since(1).is_none());
    let before = history.changes_since(0).unwrap();
    let second = || change(vec![Operation::Delete(1), Operation::Retain(1)], 2, 1);
    history.commit_changeset(second());
    assert_eq!(steps(&history.changes_since(1).unwrap()), steps(&second()));
    assert_eq!(
        steps(&history.changes_since(0).unwrap()),
        steps(&before.compose(second()))
    );
    assert!(history.changes_since(2).is_none());
}
