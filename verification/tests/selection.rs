use wallset::{choose_image, Error};

fn listing(names: &[&str]) -> Vec<String> {
    names.iter().map(|n| n.to_string()).collect()
}

#[test]
fn empty_directory_has_no_eligible_files() {
    let entries: Vec<String> = Vec::new();
    assert_eq!(choose_image(&entries), Err(Error::NoEligibleFiles));
}

#[test]
fn only_ineligible_entries_has_no_eligible_files() {
    let entries = listing(&["a.txt", "b.pdf", "c", "notes.md", ".jpg"]);
    assert_eq!(choose_image(&entries), Err(Error::NoEligibleFiles));
}

#[test]
fn a_single_eligible_entry_is_always_chosen() {
    let entries = listing(&["a.txt", "b.png", "c.doc"]);
    for _ in 0..50 {
        assert_eq!(choose_image(&entries), Ok("b.png".to_string()));
    }
}

#[test]
fn selection_is_roughly_uniform_and_never_ineligible() {
    let entries = listing(&["n1.txt", "a.jpg", "n2", "b.png", "c.jpeg", "n3.pdf"]);
    let mut counts = [0usize; 3];
    let trials = 3000;
    for _ in 0..trials {
        let picked = choose_image(&entries).unwrap();
        match picked.as_str() {
            "a.jpg" => counts[0] += 1,
            "b.png" => counts[1] += 1,
            "c.jpeg" => counts[2] += 1,
            other => panic!("ineligible entry chosen: {}", other),
        }
    }
    // Each of the three eligible entries is expected 1000 times; the bound
    // is about eight standard deviations wide.
    for c in counts {
        assert!(800 <= c && c <= 1200, "counts far from uniform: {:?}", counts);
    }
}
