use strong_lines::images::{
    bytes_equal, choose_image, copy_bytes, filter_image_files, has_image_extension,
    strip_assets_prefix,
};
use strong_lines::rng::{rand_i64_between, rand_index};

fn b(s: &str) -> Vec<u8> {
    s.as_bytes().to_vec()
}

#[test]
fn image_extension_is_case_insensitive() {
    assert!(has_image_extension(&b("assets/images/cat.png")));
    assert!(has_image_extension(&b("assets/images/CAT.PNG")));
    assert!(has_image_extension(&b("assets/images/dog.jpg")));
    assert!(has_image_extension(&b("assets/images/dog.JPeG")));
    assert!(!has_image_extension(&b("assets/images/dog.gif")));
    assert!(!has_image_extension(&b("assets/sounds/tune.mp3")));
    assert!(!has_image_extension(&b("png")));
    assert!(!has_image_extension(&b("")));
}

#[test]
fn strip_assets_prefix_cases() {
    assert_eq!(strip_assets_prefix(&b("assets/images/cat.png")), Some(b("images/cat.png")));
    assert_eq!(strip_assets_prefix(&b("assets/")), Some(b("")));
    assert_eq!(strip_assets_prefix(&b("images/cat.png")), None);
    assert_eq!(strip_assets_prefix(&b("asset")), None);
}

#[test]
fn filter_keeps_eligible_images_in_order() {
    let paths = vec![
        b("assets/images/cat.png"),
        b("assets/sounds/tune.mp3"),
        b("assets/images/dog.JPG"),
        b("elsewhere/bird.png"),
        b("assets/images/notes.txt"),
        b("assets/images/fish.jpeg"),
    ];
    let r = filter_image_files(&paths);
    assert_eq!(r, vec![b("images/cat.png"), b("images/dog.JPG"), b("images/fish.jpeg")]);
}

#[test]
fn choose_image_falls_back_without_files() {
    let r = choose_image(&Vec::new(), None);
    assert_eq!(r, b("images/placeholder.png"));
}

#[test]
fn choose_image_picks_a_member() {
    let files = vec![b("images/a.png"), b("images/b.png"), b("images/c.png")];
    for _ in 0..30 {
        let r = choose_image(&files, None);
        assert!(files.contains(&r));
    }
}

#[test]
fn choose_image_avoids_the_previous_one() {
    let files = vec![b("images/a.png"), b("images/b.png")];
    let prev = b("images/a.png");
    for _ in 0..30 {
        let r = choose_image(&files, Some(&prev));
        assert_eq!(r, b("images/b.png"));
    }
}

#[test]
fn choose_image_reuses_the_only_image() {
    let files = vec![b("images/a.png")];
    let prev = b("images/a.png");
    let r = choose_image(&files, Some(&prev));
    assert_eq!(r, b("images/a.png"));
}

#[test]
fn byte_helpers_work() {
    assert!(bytes_equal(&b("abc"), &b("abc")));
    assert!(!bytes_equal(&b("abc"), &b("abd")));
    assert!(!bytes_equal(&b("abc"), &b("ab")));
    let v = b("hello");
    assert_eq!(copy_bytes(&v), v);
}

#[test]
fn random_draws_stay_in_range() {
    for _ in 0..100 {
        let i = rand_index(7);
        assert!(i < 7);
        let v = rand_i64_between(-5, 5);
        assert!((-5..5).contains(&v));
    }
    assert_eq!(rand_index(1), 0);
    assert_eq!(rand_i64_between(3, 4), 3);
}
