use spb2xml24::locate::{candidates, parse_installed_packages_path, parse_library_paths};

#[test]
fn reads_installed_packages_path() {
    let cfg = "Fov 50\nInstalledPackagesPath \"D:\\\\MSFS 2024\\\\Packages\"\nState 1\n";
    assert_eq!(
        parse_installed_packages_path(cfg).as_deref(),
        Some(r"D:\MSFS 2024\Packages")
    );
}

#[test]
fn reads_steam_library_paths() {
    let vdf = "\"libraryfolders\"\n{\n\t\"0\"\n\t{\n\t\t\"path\"\t\t\"C:\\\\Program Files (x86)\\\\Steam\"\n\t}\n\t\"1\"\n\t{\n\t\t\"path\"\t\t\"E:\\\\SteamLibrary\"\n\t}\n}\n";
    assert_eq!(
        parse_library_paths(vdf),
        vec![
            r"C:\Program Files (x86)\Steam".to_string(),
            r"E:\SteamLibrary".to_string(),
        ]
    );
}

#[test]
fn installed_path_missing_or_unquoted() {
    assert_eq!(parse_installed_packages_path("Fov 50\nState 1\n"), None);
    assert_eq!(parse_installed_packages_path("InstalledPackagesPath D:\\x\n"), None);
    assert_eq!(parse_installed_packages_path(""), None);
}

#[test]
fn installed_path_first_matching_line_decides() {
    let cfg = "  InstalledPackagesPath \"E:\\\\First\"\r\nInstalledPackagesPath \"F:\\\\Second\"\n";
    assert_eq!(parse_installed_packages_path(cfg).as_deref(), Some(r"E:\First"));
    // A first match without a quoted value gives nothing, even if a later line has one.
    let cfg = "InstalledPackagesPath none\nInstalledPackagesPath \"F:\\\\Second\"\n";
    assert_eq!(parse_installed_packages_path(cfg), None);
}

#[test]
fn library_paths_skip_lines_without_values() {
    let vdf = "\"path\" unquoted\n\t\"path\"\t\"G:\\\\Games\"\n\"label\"\t\"x\"\n";
    assert_eq!(parse_library_paths(vdf), vec![r"G:\Games".to_string()]);
    assert!(parse_library_paths("").is_empty());
}

#[test]
fn lists_candidates_in_order() {
    let drives = vec!["C:\\".to_string()];
    let libraries = vec!["E:\\SteamLibrary".to_string()];
    let bases = vec!["D:\\Packages".to_string()];
    let c = candidates(&drives, &libraries, &bases);
    assert_eq!(c.len(), 6);
    assert_eq!(c[0].0, "C:\\");
    assert_eq!(
        c[0].1,
        vec![
            "XboxGames".to_string(),
            "Microsoft Flight Simulator 2024".to_string(),
            "Content/Propdefs/1.0/Common".to_string()
        ]
    );
    assert_eq!(c[1].0, "E:\\SteamLibrary");
    assert_eq!(
        c[1].1,
        vec![
            "steamapps".to_string(),
            "common".to_string(),
            "Microsoft Flight Simulator 2024".to_string(),
            "Content/Propdefs/1.0/Common".to_string()
        ]
    );
    assert_eq!(c[2].1, vec!["Official/OneStore/fs-base-propdefs/Propdefs/1.0/Common".to_string()]);
    assert_eq!(c[3].1, vec!["Official/Steam/fs-base-propdefs/Propdefs/1.0/Common".to_string()]);
    assert_eq!(c[4].1, vec!["Content/Propdefs/1.0/Common".to_string()]);
    assert_eq!(c[5].1, vec!["Propdefs/1.0/Common".to_string()]);
    assert!(c[2..].iter().all(|(base, _)| base == "D:\\Packages"));
}
