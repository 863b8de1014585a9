use punct_encoder::number;

/// Adds up a numeral the way the runtime does: each term is a coerced
/// literal worth zero or one.
fn evaluate(numeral: &str) -> Option<usize> {
    let mut rest = numeral;
    let mut sum = 0;
    if rest.is_empty() {
        return None;
    }
    while !rest.is_empty() {
        if let Some(tail) = rest.strip_prefix("+!![]") {
            sum += 1;
            rest = tail;
        } else if let Some(tail) = rest.strip_prefix("+[]") {
            rest = tail;
        } else {
            return None;
        }
    }
    Some(sum)
}

#[test]
fn zero_is_the_zero_literal() {
    assert_eq!(number(0), "+[]");
}

#[test]
fn one_is_the_one_literal() {
    assert_eq!(number(1), "+!![]");
}

#[test]
fn three_is_three_ones_added() {
    assert_eq!(number(3), "+!![]+!![]+!![]");
}

#[test]
fn numerals_evaluate_to_their_number() {
    for n in [0usize, 1, 2, 13, 100] {
        assert_eq!(evaluate(&number(n)), Some(n));
    }
}

#[test]
fn numeral_length_is_linear() {
    assert_eq!(number(0).len(), 3);
    assert_eq!(number(1).len(), 5);
    assert_eq!(number(13).len(), 65);
    assert_eq!(number(100).len(), 500);
}

#[test]
fn distinct_numbers_have_distinct_numerals() {
    for a in 0usize..20 {
        for b in 0usize..20 {
            assert_eq!(number(a) == number(b), a == b);
        }
    }
}
