use std::borrow::Borrow;
use std::cmp::Ordering;
use std::collections::hash_map::DefaultHasher;
use std::hash::{Hash, Hasher};
use std::sync::Arc;

use german_str::{str_prefix, str_suffix, GermanStr, InitError, Writer, MAX_INLINE_BYTES, MAX_LEN};

fn hash_of<T: Hash + ?Sized>(value: &T) -> u64 {
    let mut hasher = DefaultHasher::new();
    value.hash(&mut hasher);
    hasher.finish()
}

#[test]
fn assert_largest_layout_valid() {
    assert!(std::alloc::Layout::array::<u8>(MAX_LEN).is_ok());
}

#[test]
fn test_new() {
    assert_eq!(
        GermanStr::new("hello world!").unwrap().as_str(),
        "hello world!",
    );
    assert_eq!(
        GermanStr::new("too long to fit on the stack").unwrap().as_str(),
        "too long to fit on the stack",
    );
}

#[test]
fn test_equality() {
    let a = GermanStr::new("aaaa").unwrap();
    let b = GermanStr::new("aaaab").unwrap();
    assert!(a != b);
}

#[test]
fn test_default() {
    assert!(GermanStr::default() == String::default());
}

#[test]
fn inline_scenario_twelve_bytes() {
    let g = GermanStr::new("hello world!").unwrap();
    assert!(!g.is_heap_allocated());
    assert!(g.is_inlined());
    assert_eq!(g.len(), 12);
    assert_eq!(g.as_str(), "hello world!");
}

#[test]
fn heap_scenario_long_string() {
    let src = "too long to fit on the stack";
    let g = GermanStr::new(src).unwrap();
    assert!(g.is_heap_allocated());
    assert_eq!(g.len(), src.len());
    assert_eq!(g.len(), 28);
    assert_eq!(g.as_str(), src);
}

#[test]
fn ordering_scenario_prefix_string() {
    let a = GermanStr::new("aaaa").unwrap();
    let b = GermanStr::new("aaaab").unwrap();
    assert!(a != b);
    assert_eq!(a.cmp(&b), Ordering::Less);
    assert_eq!(b.cmp(&a), Ordering::Greater);
    assert!(a < b);
}

#[test]
fn builder_scenario_promotes_to_heap() {
    let mut w = Writer::new();
    w.push_str("ab").unwrap();
    w.push_str("cdefghijkl").unwrap();
    assert_eq!(w.len(), 12);
    w.push_str("mno").unwrap();
    assert_eq!(w.len(), 15);
    let built = GermanStr::from(w);
    let direct = GermanStr::new("abcdefghijklmno").unwrap();
    assert!(built.is_heap_allocated());
    assert!(built == direct);
    assert_eq!(built.as_str(), "abcdefghijklmno");
}

#[test]
fn empty_scenario_equals_default() {
    let g = GermanStr::new("").unwrap();
    assert!(!g.is_heap_allocated());
    assert_eq!(g.len(), 0);
    assert!(g.is_empty());
    assert!(g == GermanStr::default());
    assert_eq!(g.as_str(), "");
}

#[test]
fn shared_alias_scenario() {
    let mut v = GermanStr::new("twenty bytes exactly").unwrap();
    assert_eq!(v.len(), 20);
    assert!(!v.has_shared_buffer());
    let v2 = v.leaky_shared_clone();
    assert!(v.has_shared_buffer());
    assert!(v2.has_shared_buffer());
    assert_eq!(v.as_str().as_ptr(), v2.as_str().as_ptr());
    assert!(v == v2);
    drop(v);
    assert_eq!(v2.as_str(), "twenty bytes exactly");
    v2.free();
}

#[test]
fn shared_alias_of_inline_is_a_copy() {
    let mut v = GermanStr::new("short").unwrap();
    let v2 = v.leaky_shared_clone();
    assert!(!v.has_shared_buffer());
    assert!(!v2.has_shared_buffer());
    assert!(v == v2);
    v.free();
    assert_eq!(v2.as_str(), "short");
}

#[test]
fn round_trip_at_every_boundary() {
    for src in ["", "a", "abc", "abcd", "abcde", "hello world", "hello world!", "hello world!!", "ünïcødé ✓ text", "日本語のテキスト"] {
        let g = GermanStr::new(src).unwrap();
        assert_eq!(g.as_str(), src);
        assert_eq!(g.to_string(), src);
        assert_eq!(String::from(g.clone()), src);
        assert_eq!(g.len(), src.len());
        assert_eq!(g.is_empty(), src.is_empty());
        assert_eq!(g.is_heap_allocated(), src.len() > MAX_INLINE_BYTES);
    }
}

#[test]
fn storage_follows_length() {
    let twelve = GermanStr::new("123456789012").unwrap();
    let thirteen = GermanStr::new("1234567890123").unwrap();
    assert!(!twelve.is_heap_allocated());
    assert!(thirteen.is_heap_allocated());
}

#[test]
fn ordering_agrees_with_str() {
    let words = [
        "", "a", "a\0", "a\0\0\0", "a\0\0\0\0", "ab", "abcd", "abcd\0", "abce", "abcdefghijklm",
        "abcdefghijkl", "abcdefghijklmn", "b", "zzzz", "é", "\u{7f}", "日本",
    ];
    for a in words {
        for b in words {
            let ga = GermanStr::new(a).unwrap();
            let gb = GermanStr::new(b).unwrap();
            assert_eq!(ga.cmp(&gb), a.cmp(b), "{a:?} vs {b:?}");
            assert_eq!(ga.partial_cmp(&gb), Some(a.cmp(b)));
            assert_eq!(ga == gb, a == b, "{a:?} vs {b:?}");
            assert_eq!(ga == *b, a == b);
            assert_eq!(ga == b, a == b);
            assert_eq!(ga == b.to_string(), a == b);
            assert_eq!(*a == gb, a == b);
            assert_eq!(a == gb, a == b);
            assert_eq!(a.to_string() == gb, a == b);
        }
    }
}

#[test]
fn strings_with_trailing_nul_are_distinct() {
    let a = GermanStr::new("a").unwrap();
    let b = GermanStr::new("a\0").unwrap();
    assert!(a != b);
    assert_eq!(a.cmp(&b), Ordering::Less);
    assert!(a != "a\0");
    let c = GermanStr::new("aaaab").unwrap();
    let d = GermanStr::new("aaaab\0").unwrap();
    assert!(c != d);
    assert_eq!(d.cmp(&c), Ordering::Greater);
}

#[test]
fn clone_is_equal_and_independent() {
    let v = GermanStr::new("a string that lives on the heap").unwrap();
    let c = v.clone();
    assert!(c == v);
    assert_eq!(c.cmp(&v), Ordering::Equal);
    assert_ne!(c.as_str().as_ptr(), v.as_str().as_ptr());
    assert!(!c.has_shared_buffer());
    drop(v);
    assert_eq!(c.as_str(), "a string that lives on the heap");
}

#[test]
fn clone_of_shared_owns_a_new_buffer() {
    let mut v = GermanStr::new("a string that lives on the heap").unwrap();
    let alias = v.leaky_shared_clone();
    let c = alias.clone();
    assert!(!c.has_shared_buffer());
    assert_ne!(c.as_str().as_ptr(), alias.as_str().as_ptr());
    assert!(c == v);
}

#[test]
fn builder_equals_construction_of_joined_text() {
    let pieces = ["", "é", "abc", "", "日本語", "x", "a longer piece of text", "z"];
    let mut w = Writer::new();
    let mut joined = String::new();
    for p in pieces {
        w.push_str(p).unwrap();
        joined.push_str(p);
        assert_eq!(w.len(), joined.len());
    }
    let built = GermanStr::from(w);
    assert!(built == GermanStr::new(&joined).unwrap());
    assert_eq!(built.as_str(), joined);
}

#[test]
fn builder_that_stays_inline() {
    let mut w = Writer::new();
    w.push_str("ab").unwrap();
    w.push_str("cd").unwrap();
    w.push_str("é").unwrap();
    let built = GermanStr::from(w);
    assert!(!built.is_heap_allocated());
    assert_eq!(built.as_str(), "abcdé");
    assert_eq!(built.prefix_bytes_array(), *b"abcd");
}

#[test]
fn empty_builder_gives_empty_string() {
    let built = GermanStr::from(Writer::new());
    assert!(built.is_empty());
    assert!(built == "");
}

#[test]
fn prefix_and_suffix_accessors() {
    let g = GermanStr::new("ab").unwrap();
    assert_eq!(g.prefix_bytes_array(), [b'a', b'b', 0, 0]);
    assert_eq!(g.prefix_bytes_slice(), b"ab");
    assert_eq!(g.suffix_bytes_slice(), b"");
    let g = GermanStr::new("abcdefg").unwrap();
    assert_eq!(g.prefix_bytes_array(), *b"abcd");
    assert_eq!(g.prefix_bytes_slice(), b"abcd");
    assert_eq!(g.suffix_bytes_slice(), b"efg");
    let g = GermanStr::new("abcdefghijklmnopq").unwrap();
    assert_eq!(g.prefix_bytes_array(), *b"abcd");
    assert_eq!(g.suffix_bytes_slice(), b"efghijklmnopq");
}

#[test]
fn free_string_prefix_and_suffix() {
    assert_eq!(str_prefix(""), [0, 0, 0, 0]);
    assert_eq!(str_prefix("xy"), [b'x', b'y', 0, 0]);
    assert_eq!(str_prefix("wxyz!"), *b"wxyz");
    assert_eq!(str_suffix("wxy"), b"");
    assert_eq!(str_suffix("wxyz"), b"");
    assert_eq!(str_suffix("wxyz!?"), b"!?");
    let g = GermanStr::new("some heap allocated text").unwrap();
    assert_eq!(str_prefix(g.as_str()), g.prefix_bytes_array());
    assert_eq!(str_suffix(g.as_str()), g.suffix_bytes_slice());
}

#[test]
fn new_inline_keeps_the_text() {
    let g = GermanStr::new_inline("inline text");
    assert!(!g.is_heap_allocated());
    assert!(g == "inline text");
}

#[test]
fn equal_strings_hash_alike() {
    let mut owned = GermanStr::new("a string long enough for the heap").unwrap();
    let shared = owned.leaky_shared_clone();
    let copy = shared.clone();
    assert_eq!(hash_of(&owned), hash_of(&shared));
    assert_eq!(hash_of(&owned), hash_of(&copy));
    assert_eq!(hash_of(&owned), hash_of("a string long enough for the heap"));
    let short = GermanStr::new("tiny").unwrap();
    assert_eq!(hash_of(&short), hash_of("tiny"));
    assert_ne!(hash_of(&short), hash_of(&owned));
}

#[test]
fn conversions_from_std_strings() {
    let text = String::from("converted from a String value");
    let a = GermanStr::try_from(text.clone()).unwrap();
    let b = GermanStr::try_from(&text).unwrap();
    let c = GermanStr::try_from(text.as_str()).unwrap();
    let d = GermanStr::try_from(text.clone().into_boxed_str()).unwrap();
    let e = GermanStr::try_from(Arc::<str>::from(text.as_str())).unwrap();
    let mut buf = text.clone();
    let f = GermanStr::try_from(buf.as_mut_str()).unwrap();
    let g: GermanStr = text.parse().unwrap();
    for x in [&a, &b, &c, &d, &e, &f, &g] {
        assert!(*x == text);
    }
    let back: Arc<str> = Arc::from(a);
    assert_eq!(&*back, text.as_str());
    assert_eq!(String::from(b), text);
}

#[test]
fn deref_and_borrow_give_the_text() {
    let g = GermanStr::new("deref to str").unwrap();
    assert_eq!(&*g, "deref to str");
    assert_eq!(g.as_ref() as &str, "deref to str");
    let borrowed: &str = g.borrow();
    assert_eq!(borrowed, "deref to str");
    let mut set = std::collections::HashSet::new();
    set.insert(g);
    assert!(set.contains("deref to str"));
}

#[test]
fn too_long_error_message() {
    let e = InitError::TooLong;
    assert_eq!(e.to_string(), "Tried to initialize a GermanStr longer than 4GB.");
    assert_eq!(e, InitError::TooLong);
}

#[test]
fn maximum_length_is_the_largest_u32() {
    assert_eq!(MAX_LEN, u32::MAX as usize);
    assert_eq!(MAX_INLINE_BYTES, 12);
}

#[test]
fn heap_ptr_identifies_the_buffer() {
    let inline = GermanStr::new("inline").unwrap();
    assert_eq!(inline.heap_ptr(), None);
    let mut v = GermanStr::new("a buffer on the heap, shared twice").unwrap();
    assert_eq!(v.heap_ptr(), Some(v.as_str().as_ptr() as usize));
    let alias = v.leaky_shared_clone();
    let copy = v.clone();
    assert_eq!(alias.heap_ptr(), v.heap_ptr());
    assert!(copy.heap_ptr().is_some());
    assert_ne!(copy.heap_ptr(), v.heap_ptr());
    let mut released = std::collections::BTreeSet::new();
    for s in [v, alias, copy] {
        let Some(ptr) = s.heap_ptr() else { continue };
        if released.insert(ptr) {
            s.free();
        }
    }
    assert_eq!(released.len(), 2);
}
