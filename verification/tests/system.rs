//! The pages of the display, and what they are made from.

use radxa_penta_top_hat_rs::binary64::Binary64;
use radxa_penta_top_hat_rs::paths::{find_file_name, join, normalize_device_path};
use radxa_penta_top_hat_rs::system::{
    disk_targets, format_disk_line, format_temperature_and_fan, format_uptime,
    leading_word, parse_df_percent, parse_memory_mib, read_uptime_seconds, status_page, HostFacts,
};

/// The number that is shown for a temperature in degrees Celsius.
fn shown(celsius: Option<f64>, fahrenheit: bool) -> Option<String> {
    celsius.map(|celsius| {
        let number = if fahrenheit { celsius * 1.8 + 32.0 } else { celsius };
        format!("{number:.1}")
    })
}

#[test]
fn formats_uptime_with_days() {
    assert_eq!(format_uptime(Some(183_720)), "UP 2D 03:02");
    assert_eq!(format_uptime(Some(3_720)), "UP 01:02");
}

#[test]
fn formats_temperature_and_fan_in_configured_unit() {
    let celsius = format_temperature_and_fan(&shown(Some(50.0), false), false, 75);
    let fahrenheit = format_temperature_and_fan(&shown(Some(50.0), true), true, 100);

    assert_eq!(celsius, "CPU 50.0C FAN 75%");
    assert_eq!(fahrenheit, "CPU 122.0F FAN 100%");
    assert_eq!(fahrenheit.chars().count(), 19);
    assert_eq!(
        format_temperature_and_fan(&shown(None, false), false, 25),
        "CPU -- FAN 25%"
    );
}

#[test]
fn clamps_displayed_fan_percent() {
    assert_eq!(
        format_temperature_and_fan(&shown(Some(50.0), false), false, 255),
        "CPU 50.0C FAN 100%"
    );
}

#[test]
fn parses_memory_totals() {
    let input = "MemTotal:        8192000 kB\n\nMemFree: 100 kB\nMemAvailable:    3072000 kB\n";
    assert_eq!(parse_memory_mib(input), Some((5000, 8000)));
}

#[test]
fn parses_posix_df_percentage() {
    let output = "Filesystem 1024-blocks Used Available Capacity Mounted on\n/dev/sdb2 28799488 1000 2000 73% /\n";
    assert_eq!(parse_df_percent(output), Some(73));
}

#[test]
fn normalizes_configured_disk_names() {
    assert_eq!(normalize_device_path("sdd1"), "/dev/sdd1");
    assert_eq!(
        normalize_device_path("/dev/sdc1"),
        "/dev/sdc1"
    );
}

fn facts() -> HostFacts {
    HostFacts {
        uptime_seconds: Some(3_720),
        cpu_temperature: Some("50.0".to_string()),
        ip: Some("192.168.1.96".to_string()),
        load: Some("0.42".to_string()),
        meminfo: Some("MemTotal: 8192000 kB\nMemAvailable: 3072000 kB\n".to_string()),
        disk_usage: vec![
            Some(b"Filesystem 1024-blocks Used Available Capacity Mounted on\n/dev/sdb2 1 1 1 73% /\n".to_vec()),
            None,
            Some(b"/dev/sda1 1 1 1 5% /mnt/\xff\n\n".to_vec()),
        ],
    }
}

fn unknown() -> HostFacts {
    HostFacts {
        uptime_seconds: None,
        cpu_temperature: None,
        ip: None,
        load: None,
        meminfo: None,
        disk_usage: Vec::new(),
    }
}

fn names(disks: &[&str]) -> Vec<String> {
    disks.iter().map(|disk| disk.to_string()).collect()
}

#[test]
fn pages_show_what_is_known() {
    let disks = names(&["md127", "/dev/sda1", "x", "y"]);
    let page = |index| status_page(index, &facts(), &disks, false, 75);
    assert_eq!(
        page(0),
        vec!["UP 01:02", "CPU 50.0C FAN 75%", "IP 192.168.1.96"]
    );
    assert_eq!(page(1), vec!["LOAD 0.42", "MEM 5000/8000M"]);
    assert_eq!(page(2), vec!["ROOT 73%", "MD127 --", "SDA1 5%", "X --"]);
    assert_eq!(page(3), page(0));
    assert_eq!(page(usize::MAX), page(usize::MAX % 3));
}

#[test]
fn pages_show_what_is_not_known() {
    let page = |index| status_page(index, &unknown(), &names(&[]), true, 0);
    assert_eq!(page(0), vec!["UP --", "CPU -- FAN 0%", "IP --"]);
    assert_eq!(page(1), vec!["LOAD --", "MEM --"]);
    assert_eq!(page(2), vec!["ROOT --"]);
}

#[test]
fn disks_are_labelled_by_their_devices() {
    let labels = |disk: &str| {
        let targets = disk_targets(&names(&[disk]));
        assert_eq!((targets[0].label.as_str(), targets[0].path.as_str()), ("ROOT", "/"));
        (targets[1].label.clone(), targets[1].path.clone())
    };
    let pair = |label: &str, path: &str| (label.to_string(), path.to_string());
    assert_eq!(labels(" sda1 "), pair("SDA1", "/dev/sda1"));
    assert_eq!(labels("/mnt/data/"), pair("DATA", "/mnt/data/"));
    assert_eq!(labels("mapper/vg-root"), pair("VG-ROOT", "/dev/mapper/vg-root"));
    assert_eq!(labels("/"), pair("/", "/"));
    assert_eq!(disk_targets(&names(&["a", "b", "c", "d"])).len(), 4);
}

#[test]
fn last_name_of_a_path_is_that_of_std() {
    for path in [
        "/dev/sda1", "/dev/sda1/", "/dev/.", "/dev/./", "/dev/..", "/..", "/", "//", "/a//b", "/a/b/.//",
        "/dev/...", "/.hidden",
    ] {
        let expected = std::path::Path::new(path)
            .file_name()
            .map(|name| name.to_str().unwrap().to_string());
        let found = find_file_name(path).map(|name| name.into_iter().collect::<String>());
        assert_eq!(found, expected, "{path}");
    }
}

#[test]
fn paths_are_joined_as_std_joins_them() {
    for directory in ["/dev", "/", "", "a/"] {
        for path in ["b", "/c", "", "d/e"] {
            let expected = std::path::Path::new(directory).join(path);
            assert_eq!(join(directory, path), expected.to_str().unwrap());
        }
    }
}

#[test]
fn uptime_is_cut_to_whole_seconds() {
    let read = |text: &str| {
        text.parse::<f64>()
            .ok()
            .map(|value| Binary64::from_bits(value.to_bits()))
    };
    for text in ["183720.99 12.3\n", "0.5 1", "1e30", "18446744073709551615", "-0.0"] {
        let seconds = text.split_whitespace().next().unwrap().parse::<f64>().unwrap();
        assert_eq!(read_uptime_seconds(text, &read), Some(seconds as u64));
    }
    for text in ["", "x", "-1", "inf", "NaN"] {
        assert_eq!(read_uptime_seconds(text, &read), None);
    }
}

#[test]
fn first_word_is_found() {
    assert_eq!(leading_word(" 0.42 0.5\n"), Some("0.42".to_string()));
    assert_eq!(leading_word(" \n"), None);
}

#[test]
fn memory_needs_both_of_its_numbers() {
    assert_eq!(parse_memory_mib("MemTotal: 1024 kB\n"), None);
    assert_eq!(parse_memory_mib("MemTotal:\nMemAvailable: 1 kB\n"), None);
    assert_eq!(
        parse_memory_mib("MemTotal: 1024\nMemAvailable: 4096\n"),
        Some((0, 1))
    );
    assert_eq!(
        parse_memory_mib("MemTotal: x\nMemTotal: 2048\nMemAvailable: 0\n"),
        Some((2, 2))
    );
    assert_eq!(
        parse_memory_mib("MemAvailable: 0\nMemTotal: 2048\nMemTotal: x\n"),
        None
    );
}

#[test]
fn other_tables_have_no_share() {
    assert_eq!(parse_df_percent(""), None);
    assert_eq!(parse_df_percent("one\n"), None);
    assert_eq!(parse_df_percent("a 73 /\n"), None);
    assert_eq!(parse_df_percent("a 256% /\n"), None);
    assert_eq!(parse_df_percent("a 100% /\n \n"), Some(100));
    assert_eq!(format_disk_line("ROOT", Some(7)), "ROOT 7%");
}

#[test]
fn long_uptimes_are_in_days() {
    assert_eq!(format_uptime(None), "UP --");
    assert_eq!(format_uptime(Some(86_399)), "UP 23:59");
    assert_eq!(format_uptime(Some(86_400)), "UP 1D 00:00");
    assert_eq!(format_uptime(Some(u64::MAX)), "UP 213503982334601D 07:00");
}
