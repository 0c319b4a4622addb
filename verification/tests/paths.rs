use yamato::config::Config;
use yamato::importing::offered_name;
use yamato::log::{default_path, rotated_path};
use yamato::paths::{extension, file_stem, join, parent, with_extension, with_file_name};
use yamato::pawnio::Layout;
use yamato::pawnio_status::beside_exe;

#[test]
fn a_path_is_joined_the_way_windows_reads_it() {
    for (dir, path, whole) in [
        (r"C:\a", "b", r"C:\a\b"),
        (r"C:\a\", "b", r"C:\a\b"),
        ("C:", "b", "C:b"),
        ("", "b", "b"),
        ("a", "", r"a\"),
        (r"C:\a", r"\b", r"C:\b"),
        (r"C:\a", "/b", "C:/b"),
        (r"C:\a", r"D:\b", r"D:\b"),
        (r"C:\a", "D:b", "D:b"),
        ("a", r"\b", r"\b"),
        (r"\\server\share\a", r"\b", r"\\server\share\b"),
        (r"\\server\share", "b", r"\\server\share\b"),
        (r"\\server", r"\b", r"\b"),
        (r"\\.\pipe\a", r"\b", r"\\.\pipe\b"),
        (r"C:\a", r"\\server\share\b", r"\\server\share\b"),
    ] {
        assert_eq!(join(dir, path), whole, "{dir} and {path}");
    }
}

#[test]
fn a_verbatim_path_is_written_anew() {
    for (dir, path, whole) in [
        (r"\\?\C:\bar", "../foo", r"\\?\C:\foo"),
        (r"\\?\C:\bar", "../../foo", r"\\?\C:\foo"),
        (r"\\?\C:\", "../foo", r"\\?\C:\foo"),
        (r"\\?\C:", "foo", r"\\?\C:\foo"),
        (r"\\?\A:\x\y", "/foo", r"\\?\A:\foo"),
        (r"\\?\A:\x\y", r".\foo\.", r"\\?\A:\x\y\foo"),
        (r"\\?\A:\x\y", "", r"\\?\A:\x\y\"),
        (r"\\?\C:", r"D:\foo/./", r"D:\foo/./"),
        (r"\\?\UNC\server\share\foo", r"\bar", r"\\?\UNC\server\share\bar"),
        (r"\\?\UNC\server", "foo", r"\\?\UNC\server\foo"),
        (r"\\?\pictures\of", "cats", r"\\?\pictures\of\cats"),
        (r"//?/C:/a", "b", r"//?/C:/a\b"),
    ] {
        assert_eq!(join(dir, path), whole, "{dir} and {path}");
    }
}

#[test]
fn a_name_is_found_behind_what_means_nothing() {
    let owned = |s: &str| Some(s.to_string());
    for (path, stem, ext) in [
        (r"C:\a\b.txt", owned("b"), owned("txt")),
        (r"C:\a\b.txt\", owned("b"), owned("txt")),
        (r"C:\a\b.txt\\.\", owned("b"), owned("txt")),
        ("C:b.tar.gz", owned("b.tar"), owned("gz")),
        ("b", owned("b"), None),
        (".hidden", owned(".hidden"), None),
        ("b.", owned("b"), owned("")),
        ("...", owned(".."), owned("")),
        (r"a\.", owned("a"), None),
        (r"a\..", None, None),
        ("..", None, None),
        (".", None, None),
        ("", None, None),
        ("C:", None, None),
        (r"C:\", None, None),
        (r"\\server\share", None, None),
        (r"\\server\share\a.b", owned("a"), owned("b")),
        (r"\\?\C:\a\.", None, None),
        (r"\\?\C:\a/b.c", owned("a/b"), owned("c")),
    ] {
        assert_eq!(file_stem(path), stem, "{path}");
        assert_eq!(extension(path), ext, "{path}");
    }
}

#[test]
fn a_path_lies_in_all_but_its_last_part() {
    let owned = |s: &str| Some(s.to_string());
    for (path, dir) in [
        (r"C:\a\b", owned(r"C:\a")),
        (r"C:\a\\b\", owned(r"C:\a")),
        (r"C:\a", owned(r"C:\")),
        (r"C:\", None),
        ("C:a", owned("C:")),
        ("a", owned("")),
        (".", owned("")),
        (r".\a", owned(".")),
        ("..", owned("")),
        ("", None),
        (r"\\server\share\a", owned(r"\\server\share\")),
        (r"\\server\share", None),
    ] {
        assert_eq!(parent(path), dir, "{path}");
    }
}

#[test]
fn a_name_is_exchanged_for_another() {
    for (path, whole) in [
        (r"C:\a\b.txt", r"C:\a\x"),
        (r"C:\a\b.txt\", r"C:\a\x"),
        (r"C:\", r"C:\x"),
        ("C:b", "C:x"),
        ("b", "x"),
        (r"a\..", r"a\..\x"),
        (r"\\?\C:\a\b", r"\\?\C:\a\x"),
    ] {
        assert_eq!(with_file_name(path, "x"), whole, "{path}");
    }
    for (path, whole) in [
        (r"C:\a\b.txt", r"C:\a\b.new"),
        (r"C:\a\b.txt\", r"C:\a\b.new"),
        (r"C:\a\b", r"C:\a\b.new"),
        (r"C:\a.b\.c", r"C:\a.b\.c.new"),
        (r"C:\", r"C:\"),
        (r"a\..", r"a\.."),
    ] {
        assert_eq!(with_extension(path, "new"), whole, "{path}");
    }
    assert_eq!(with_extension("b.txt", ""), "b");
}

#[test]
fn every_path_of_the_program_follows_the_same_rules() {
    assert_eq!(rotated_path(r"x\"), "x.1");
    assert_eq!(rotated_path(r"C:\logs\a.csv\"), r"C:\logs\a.1.csv");
    assert_eq!(rotated_path("C:a.csv"), "C:a.1.csv");
    assert_eq!(rotated_path(r"a\.."), r"a\..\yamato-log.1.csv");
    assert_eq!(Config::temporary_path(r"x.json\"), "x.json.new");
    assert_eq!(Config::temporary_path(".."), "..");
    assert_eq!(Config::default_path(Some(r"\\?\C:\Data\.")), r"\\?\C:\Data\.\Yamato\config.json");
    assert_eq!(default_path(Some(r"D:\Data")), r"D:\Data\Yamato\yamato-log.csv");
    assert_eq!(beside_exe("D:yamato.exe", Layout::Standard), "D:LpcACPIEC.bin");
    assert_eq!(beside_exe(r"C:\Yamato\yamato.exe", Layout::Alternate), r"C:\Yamato\LpcIO.bin");
    assert_eq!(offered_name(r"C:\TPFC\T14.ini\"), "T14");
    assert_eq!(offered_name(r"C:\TPFC\.."), "Imported");
}
