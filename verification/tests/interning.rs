use static_str_ops::{destaticize, is_staticized, static_concat, staticize, InternPool};

#[test]
fn test_staticize() {
    let mut pool = InternPool::new();
    let s = staticize(&mut pool, "hello");
    assert_eq!(s, "hello");
    let s = staticize(&mut pool, "world");
    assert_eq!(s, "world");

    let s = staticize(&mut pool, &String::from("hello world!"));
    assert_eq!(s, "hello world!");
}

#[test]
fn test_is_staticized() {
    let mut pool = InternPool::new();
    let s = "new hello world!";
    assert!(!is_staticized(&pool, s));
    let _ = staticize(&mut pool, s);
    assert!(is_staticized(&pool, s));
}

#[test]
fn test_destaticize() {
    let mut pool = InternPool::new();
    let s = "new hello world to be destaticized!";
    assert!(!is_staticized(&pool, s));
    let _ = staticize(&mut pool, s);
    assert!(is_staticized(&pool, s));
    assert!(destaticize(&mut pool, s));
    println!("{:?}", pool.len());
    assert!(!is_staticized(&pool, s));
}

#[test]
fn test_static_concat() {
    let mut pool = InternPool::new();
    let result: &'static str = static_concat(&mut pool, &["hello", " ", "world", "!"]);
    assert_eq!(result, "hello world!");
}

#[test]
fn test_static_format() {
    let mut pool = InternPool::new();
    let result: &'static str = staticize(&mut pool, &format!("{} {}!", "hello", "world"));
    assert_eq!(result, "hello world!");
}

#[test]
fn staticize_returns_the_stored_reference_for_equal_content() {
    let mut pool = InternPool::new();
    let owned = String::from("shared content");
    let first = staticize(&mut pool, &owned);
    let second = staticize(&mut pool, "shared content");
    assert_eq!(first, second);
    assert_eq!(first.as_ptr(), second.as_ptr());
    assert_eq!(pool.len(), 1);
}

#[test]
fn staticize_copies_its_argument() {
    let mut pool = InternPool::new();
    let kept;
    {
        let mut scratch = String::from("short lived");
        kept = staticize(&mut pool, &scratch);
        assert_ne!(kept.as_ptr(), scratch.as_ptr());
        scratch.clear();
        scratch.push_str("overwritten");
    }
    assert_eq!(kept, "short lived");
}

#[test]
fn distinct_contents_get_distinct_entries() {
    let mut pool = InternPool::new();
    let a = staticize(&mut pool, "alpha");
    let b = staticize(&mut pool, "beta");
    let empty = staticize(&mut pool, "");
    assert_eq!(a, "alpha");
    assert_eq!(b, "beta");
    assert_eq!(empty, "");
    assert_eq!(pool.len(), 3);
    assert!(is_staticized(&pool, "alpha"));
    assert!(is_staticized(&pool, "beta"));
    assert!(is_staticized(&pool, ""));
    assert!(!is_staticized(&pool, "gamma"));
}

#[test]
fn a_new_pool_holds_nothing() {
    let pool = InternPool::new();
    assert_eq!(pool.len(), 0);
    assert!(!is_staticized(&pool, ""));
    assert!(!is_staticized(&pool, "hello"));
}

#[test]
fn membership_follows_the_last_operation_on_the_content() {
    let mut pool = InternPool::new();
    assert!(!is_staticized(&pool, "k"));
    staticize(&mut pool, "k");
    assert!(is_staticized(&pool, "k"));
    staticize(&mut pool, "other");
    assert!(destaticize(&mut pool, "other"));
    assert!(is_staticized(&pool, "k"));
    assert!(destaticize(&mut pool, "k"));
    assert!(!is_staticized(&pool, "k"));
    staticize(&mut pool, "other");
    assert!(!is_staticized(&pool, "k"));
}

#[test]
fn destaticize_answers_true_once() {
    let mut pool = InternPool::new();
    assert!(!destaticize(&mut pool, "never interned"));
    staticize(&mut pool, "once");
    staticize(&mut pool, "once");
    assert!(destaticize(&mut pool, "once"));
    assert!(!destaticize(&mut pool, "once"));
    assert!(!destaticize(&mut pool, "once"));
    staticize(&mut pool, "once");
    assert!(destaticize(&mut pool, "once"));
    assert!(!destaticize(&mut pool, "once"));
    assert_eq!(pool.len(), 0);
}

#[test]
fn destaticize_leaves_other_contents_alone() {
    let mut pool = InternPool::new();
    let kept = staticize(&mut pool, "kept");
    staticize(&mut pool, "dropped");
    assert!(destaticize(&mut pool, "dropped"));
    assert_eq!(pool.len(), 1);
    assert!(is_staticized(&pool, "kept"));
    assert_eq!(staticize(&mut pool, "kept").as_ptr(), kept.as_ptr());
}

#[test]
fn reinterning_after_eviction_promotes_a_new_copy() {
    let mut pool = InternPool::new();
    let first = staticize(&mut pool, "comes and goes");
    assert!(destaticize(&mut pool, "comes and goes"));
    let second = staticize(&mut pool, "comes and goes");
    assert_eq!(second, "comes and goes");
    assert_eq!(first, second);
    assert_ne!(first.as_ptr(), second.as_ptr());
    assert!(is_staticized(&pool, "comes and goes"));
    assert_eq!(staticize(&mut pool, "comes and goes").as_ptr(), second.as_ptr());
}

#[test]
fn references_outlive_eviction_and_the_pool() {
    let kept;
    {
        let mut pool = InternPool::new();
        kept = staticize(&mut pool, "still here");
        assert!(destaticize(&mut pool, "still here"));
    }
    assert_eq!(kept, "still here");
}

#[test]
fn static_concat_joins_in_order_and_interns() {
    let mut pool = InternPool::new();
    let result = static_concat(&mut pool, &["hello", ", ", "world", "!"]);
    assert_eq!(result, "hello, world!");
    assert!(is_staticized(&pool, "hello, world!"));
    assert!(!is_staticized(&pool, "hello"));
    assert_eq!(pool.len(), 1);
    let direct = staticize(&mut pool, "hello, world!");
    assert_eq!(direct.as_ptr(), result.as_ptr());
}

#[test]
fn static_concat_of_nothing_interns_the_empty_string() {
    let mut pool = InternPool::new();
    assert!(!is_staticized(&pool, ""));
    let result = static_concat(&mut pool, &[]);
    assert_eq!(result, "");
    assert!(is_staticized(&pool, ""));
    assert_eq!(pool.len(), 1);
    let again = static_concat(&mut pool, &[]);
    assert_eq!(again.as_ptr(), result.as_ptr());
    assert_eq!(staticize(&mut pool, "").as_ptr(), result.as_ptr());
    assert_eq!(pool.len(), 1);
}

#[test]
fn static_concat_of_empty_parts_is_the_empty_string() {
    let mut pool = InternPool::new();
    let held = staticize(&mut pool, "");
    let result = static_concat(&mut pool, &["", "", ""]);
    assert_eq!(result, "");
    assert_eq!(result.as_ptr(), held.as_ptr());
    assert_eq!(pool.len(), 1);
}

#[test]
fn static_concat_of_one_empty_part_interns_the_empty_string() {
    let mut pool = InternPool::new();
    let result = static_concat(&mut pool, &[""]);
    assert_eq!(result, "");
    assert!(is_staticized(&pool, ""));
    let single = static_concat(&mut pool, &["solo"]);
    assert_eq!(single, "solo");
}

#[test]
fn static_format_interns_the_formatted_text() {
    let mut pool = InternPool::new();
    let name = "John";
    let age = 30;
    let message = staticize(
        &mut pool,
        &format!("My name is {} and I'm {} years old.", name, age),
    );
    assert_eq!(message, "My name is John and I'm 30 years old.");
    assert!(is_staticized(&pool, "My name is John and I'm 30 years old."));
}

#[test]
fn non_ascii_content_is_interned_by_content() {
    let mut pool = InternPool::new();
    let a = staticize(&mut pool, "naïve — 文字");
    let b = static_concat(&mut pool, &["naïve", " — ", "文字"]);
    assert_eq!(a, "naïve — 文字");
    assert_eq!(a.as_ptr(), b.as_ptr());
    assert_eq!(pool.len(), 1);
}
