use target_triple::TargetTriple;

fn tt(s: &str) -> TargetTriple {
    TargetTriple::from_bazel(s.to_string())
}

#[test]
fn no_alias_is_unchanged() {
    assert_eq!(
        tt("x86_64-unknown-linux-gnu").to_cargo(),
        "x86_64-unknown-linux-gnu"
    );
    assert_eq!(tt("wasm32-wasip1").to_cargo(), "wasm32-wasip1");
    assert_eq!(tt("").to_cargo(), "");
}

#[test]
fn nixos_is_rewritten_to_linux() {
    assert_eq!(
        tt("x86_64-unknown-nixos-gnu").to_cargo(),
        "x86_64-unknown-linux-gnu"
    );
}

#[test]
fn drive_linux_is_rewritten_to_linux() {
    assert_eq!(
        tt("aarch64-unknown-drive_linux-gnu").to_cargo(),
        "aarch64-unknown-linux-gnu"
    );
}

#[test]
fn first_alias_in_priority_order_wins() {
    // Both alias substrings occur; only the `nixos` pair applies, and the
    // `drive_linux` occurrence is left exactly as it was.
    assert_eq!(
        tt("x86_64-nixos-drive_linux").to_cargo(),
        "x86_64-linux-drive_linux"
    );
}

#[test]
fn every_occurrence_of_the_matching_alias_is_replaced() {
    assert_eq!(tt("nixos-vendor-nixos-gnu").to_cargo(), "linux-vendor-linux-gnu");
}

#[test]
fn substring_match_reaches_inside_components() {
    // The rewrite is a plain substring match, not field-aware.
    assert_eq!(tt("x86_64-nixosvendor-elf").to_cargo(), "x86_64-linuxvendor-elf");
}

#[test]
fn render_without_alias_is_the_raw_string() {
    assert_eq!(tt("x86_64-unknown-linux-gnu").render(), "x86_64-unknown-linux-gnu");
}

#[test]
fn render_with_alias_appends_the_cargo_spelling() {
    assert_eq!(
        tt("x86_64-unknown-nixos-gnu").render(),
        "x86_64-unknown-nixos-gnu (cargo: x86_64-unknown-linux-gnu)"
    );
}

#[test]
fn to_bazel_returns_the_construction_input_exactly() {
    assert_eq!(tt("x86_64-unknown-nixos-gnu").to_bazel(), "x86_64-unknown-nixos-gnu");
    assert_eq!(tt("").to_bazel(), "");
    assert_eq!(tt("  spaced out  ").to_bazel(), "  spaced out  ");
    assert_eq!(tt("nixos-drive_linux").to_bazel(), "nixos-drive_linux");
}

#[test]
fn equality_is_structural_over_the_raw_string() {
    assert_eq!(tt("x86_64-unknown-linux-gnu"), tt("x86_64-unknown-linux-gnu"));
    assert_ne!(tt("x86_64-unknown-linux-gnu"), tt("x86_64-unknown-nixos-gnu"));
    let a = tt("aarch64-apple-darwin");
    let b = a.clone();
    assert_eq!(a, b);
}

#[test]
fn ordering_matches_lexicographic_string_ordering() {
    let pairs = [
        ("aarch64-apple-darwin", "x86_64-unknown-linux-gnu"),
        ("x86_64-unknown-linux-gnu", "x86_64-unknown-nixos-gnu"),
        ("abc", "abd"),
        ("ab", "abc"),
        ("", "a"),
        ("same", "same"),
    ];
    for (sa, sb) in pairs {
        assert_eq!(tt(sa) < tt(sb), sa < sb);
        assert_eq!(tt(sa) <= tt(sb), sa <= sb);
        assert_eq!(tt(sa) > tt(sb), sa > sb);
        assert_eq!(
            tt(sa).partial_cmp(&tt(sb)),
            Some(sa.cmp(sb))
        );
    }
}
