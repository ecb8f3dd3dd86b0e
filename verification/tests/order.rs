use firmware_extractor::order::sort_chunks;

fn names(list: &[&str]) -> Vec<String> {
    list.iter().map(|name| name.to_string()).collect()
}

fn chunks(prefix: &str, numbers: &[u32]) -> Vec<String> {
    numbers.iter().map(|n| format!("{}.new.dat.{}", prefix, n)).collect()
}

#[test]
fn chunks_are_ordered_by_number() {
    let ascending = chunks("system", &[0, 1, 2, 3, 4, 5, 6, 7, 8, 9, 10, 11]);
    assert_eq!(sort_chunks(&chunks("system", &[11, 10, 9, 8, 7, 6, 5, 4, 3, 2, 1, 0])), ascending);
    assert_eq!(sort_chunks(&chunks("system", &[0, 1, 10, 11, 2, 3, 4, 5, 6, 7, 8, 9])), ascending);
    assert_eq!(sort_chunks(&chunks("system", &[5, 0, 11, 3, 8, 1, 10, 2, 7, 4, 9, 6])), ascending);
    assert_eq!(sort_chunks(&ascending), ascending);
}

#[test]
fn every_rotation_of_twelve_chunks_gives_one_order() {
    let ascending = chunks("vendor", &[0, 1, 2, 3, 4, 5, 6, 7, 8, 9, 10, 11]);
    for shift in 0..12 {
        let mut listed = ascending.clone();
        listed.rotate_left(shift);
        assert_eq!(sort_chunks(&listed), ascending);
        listed.reverse();
        assert_eq!(sort_chunks(&listed), ascending);
    }
}

#[test]
fn ten_comes_after_two() {
    let mut by_text = chunks("system", &[0, 1, 2, 10, 11]);
    by_text.sort();
    assert_eq!(by_text, chunks("system", &[0, 1, 10, 11, 2]));
    assert_eq!(sort_chunks(&by_text), chunks("system", &[0, 1, 2, 10, 11]));
}

#[test]
fn a_gap_is_kept_as_it_is() {
    assert_eq!(
        sort_chunks(&names(&["system.new.dat.2", "system.new.dat.1"])),
        names(&["system.new.dat.1", "system.new.dat.2"])
    );
    assert_eq!(sort_chunks(&chunks("system", &[7, 3, 100])), chunks("system", &[3, 7, 100]));
}

#[test]
fn equal_numbers_keep_the_order_they_came_in() {
    assert_eq!(
        sort_chunks(&names(&[
            "b/system.new.dat.1",
            "system.new.dat.2",
            "a/system.new.dat.01",
            "system.new.dat.0",
            "system.new.dat.1",
        ])),
        names(&[
            "system.new.dat.0",
            "b/system.new.dat.1",
            "a/system.new.dat.01",
            "system.new.dat.1",
            "system.new.dat.2",
        ])
    );
}

#[test]
fn numbers_of_any_length_are_ordered() {
    assert_eq!(
        sort_chunks(&names(&[
            "system.new.dat.36893488147419103232",
            "system.new.dat.18446744073709551616",
            "system.new.dat.18446744073709551615",
            "system.new.dat.000000000000000000000000000005",
        ])),
        names(&[
            "system.new.dat.000000000000000000000000000005",
            "system.new.dat.18446744073709551615",
            "system.new.dat.18446744073709551616",
            "system.new.dat.36893488147419103232",
        ])
    );
}

#[test]
fn nothing_and_one_stay() {
    assert_eq!(sort_chunks(&names(&[])), names(&[]));
    assert_eq!(sort_chunks(&names(&["system.new.dat.4"])), names(&["system.new.dat.4"]));
}
