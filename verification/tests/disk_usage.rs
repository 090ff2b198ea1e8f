use myrti::scheduling::disk_usage::{df_block_size, disk_almost_full, parse_df_output, DfOutput};

#[test]
fn test_parse_df_output() {
    let output = r#"Filesystem            Type 1MB-blocks      Used    Avail
/dev/mapper/cryptroot ext4  1916555MB 1302472MB 516652MB"#;
    assert_eq!(
        parse_df_output(output),
        Some(DfOutput {
            fs_source: "/dev/mapper/cryptroot".to_owned(),
            fs_type: "ext4".to_owned(),
            size_mb: 1916555,
            used_mb: 1302472,
            avail_mb: 516652
        })
    );
}

#[test]
fn df_output_without_values_line_is_refused() {
    assert_eq!(parse_df_output("Filesystem Type 1MB-blocks Used Avail"), None);
}

#[test]
fn df_output_with_missing_column_is_refused() {
    let output = "Filesystem Type 1MB-blocks Used Avail\n/dev/sda1 ext4 100MB 50MB";
    assert_eq!(parse_df_output(output), None);
}

#[test]
fn df_output_without_block_suffix_is_refused() {
    let output = "Filesystem Type 1MB-blocks Used Avail\n/dev/sda1 ext4 100MB 50 50MB";
    assert_eq!(parse_df_output(output), None);
}

#[test]
fn df_output_with_tabs_and_extra_lines() {
    let output = "h\n\t/dev/sda1\text4 10MB  4MB 6MB\nmore";
    assert_eq!(
        parse_df_output(output),
        Some(DfOutput {
            fs_source: "/dev/sda1".to_owned(),
            fs_type: "ext4".to_owned(),
            size_mb: 10,
            used_mb: 4,
            avail_mb: 6
        })
    );
}

#[test]
fn disk_is_almost_full_under_five_gigabytes() {
    let mut d = DfOutput {
        fs_source: "/dev/sda1".to_owned(),
        fs_type: "ext4".to_owned(),
        size_mb: 10000,
        used_mb: 5001,
        avail_mb: 4999,
    };
    assert!(disk_almost_full(&d));
    d.avail_mb = 5000;
    assert!(!disk_almost_full(&d));
    assert_eq!(df_block_size(), "MB");
}
