use jingzhuo::file_access::{
    check_inside_archive, check_text_read, ensure_inside_authorized_root, file_read_policy,
    find_authorized_root, index_entry, is_allowed_text_file, is_bad_root, is_blocked_path,
    kind_from_extension, mark_indexed, plan_add_authorized_root, remove_authorized_root,
    skip_dir, AddRootOutcome, AuthorizedRoot, ScanEntry, MAX_SCAN_FILE_BYTES,
};
use jingzhuo::paths::{ComponentKind, PathComponent, PathText};

/// A Windows path as `Path::components` splits it (drive prefix, root, names).
fn wpath(text: &str) -> PathText {
    let mut components = Vec::new();
    let mut rest = text;
    if rest.len() >= 2 && rest.as_bytes()[1] == b':' {
        components.push(PathComponent {
            kind: ComponentKind::Prefix,
            text: rest[..2].to_string(),
            key: vec![5, rest.as_bytes()[0]],
        });
        rest = &rest[2..];
    }
    if rest.starts_with('\\') || rest.starts_with('/') {
        components.push(PathComponent { kind: ComponentKind::RootDir, text: "\\".to_string(), key: vec![] });
    }
    for piece in rest.split(|c| c == '\\' || c == '/') {
        if piece.is_empty() || piece == "." {
            continue;
        }
        let kind = if piece == ".." { ComponentKind::ParentDir } else { ComponentKind::Normal };
        components.push(PathComponent { kind, text: piece.to_string(), key: piece.as_bytes().to_vec() });
    }
    PathText { text: text.to_string(), components }
}

fn root(id: &str, path: &str) -> AuthorizedRoot {
    AuthorizedRoot {
        id: id.to_string(),
        path: path.to_string(),
        label: "L".to_string(),
        created_at: "1Z".to_string(),
        last_indexed_at: None,
    }
}

#[test]
fn blocked_paths_are_found_case_insensitively() {
    assert!(is_blocked_path(&wpath("C:\\proj\\.ENV")));
    assert!(is_blocked_path(&wpath("C:\\proj\\My-Token.txt")));
    assert!(is_blocked_path(&wpath("C:\\Users\\me\\.ssh\\config")));
    assert!(!is_blocked_path(&wpath("C:\\proj\\notes.md")));
}

#[test]
fn allowed_text_files() {
    assert!(is_allowed_text_file(&wpath("C:\\a\\README.MD")));
    assert!(is_allowed_text_file(&wpath("C:\\a\\main.rs")));
    assert!(is_allowed_text_file(&wpath("C:\\a\\x.tar.json")));
    assert!(!is_allowed_text_file(&wpath("C:\\a\\.md")));
    assert!(!is_allowed_text_file(&wpath("C:\\a\\tool.exe")));
    assert!(!is_allowed_text_file(&wpath("C:\\a\\Makefile")));
    assert!(!is_allowed_text_file(&wpath("C:\\a\\file.")));
}

#[test]
fn bad_roots() {
    assert!(is_bad_root(&wpath("C:\\")));
    assert!(is_bad_root(&wpath("C:\\Windows")));
    assert!(is_bad_root(&wpath("C:\\Users")));
    assert!(is_bad_root(&wpath("D:\\Users\\me\\AppData\\Local\\x")));
    assert!(is_bad_root(&wpath("D:\\profiles\\Google\\Chrome\\User Data")));
    assert!(is_bad_root(&wpath("folder")));
    assert!(!is_bad_root(&wpath("D:\\work\\proj")));
}

#[test]
fn skipped_folders() {
    assert!(skip_dir(&wpath("C:\\p\\.git")));
    assert!(skip_dir(&wpath("C:\\p\\Node_Modules")));
    assert!(skip_dir(&wpath("C:\\p\\target")));
    assert!(skip_dir(&wpath("C:\\p\\secrets")));
    assert!(!skip_dir(&wpath("C:\\p\\src")));
    assert!(!skip_dir(&wpath("C:\\")));
}

#[test]
fn kinds_of_extensions() {
    assert_eq!(kind_from_extension(".md"), "text");
    assert_eq!(kind_from_extension(".xml"), "text");
    assert_eq!(kind_from_extension(".jpeg"), "image");
    assert_eq!(kind_from_extension(".pdf"), "pdf");
    assert_eq!(kind_from_extension(".xlsx"), "office");
    assert_eq!(kind_from_extension(".zip"), "unknown");
    assert_eq!(kind_from_extension(""), "unknown");
}

#[test]
fn read_policy_lists() {
    let p = file_read_policy();
    assert_eq!(p.max_text_file_bytes, 1024 * 1024);
    assert_eq!(p.allowed_extensions.len(), 12);
    assert_eq!(p.allowed_extensions[0], ".md");
    assert_eq!(p.allowed_extensions[11], ".xml");
    assert_eq!(p.blocked_patterns.len(), 15);
    assert_eq!(p.blocked_patterns[0], ".env");
    assert_eq!(p.blocked_patterns[14], ".ssh");
}

#[test]
fn inside_roots() {
    let file = Ok(wpath("C:\\a\\b\\c.md"));
    let roots = vec![Ok(wpath("C:\\x")), Ok(wpath("C:\\a"))];
    assert!(ensure_inside_authorized_root(&file, &roots).is_ok());
    let roots = vec![Ok(wpath("C:\\a\\bc"))];
    assert_eq!(
        ensure_inside_authorized_root(&Ok(wpath("C:\\a\\b")), &roots).err().unwrap(),
        "拒绝读取授权目录之外的文件"
    );
    let roots = vec![Err("gone".to_string()), Ok(wpath("C:\\a"))];
    assert_eq!(
        ensure_inside_authorized_root(&file, &roots).err().unwrap(),
        "解析授权目录失败：gone"
    );
    let roots = vec![Ok(wpath("C:\\a")), Err("gone".to_string())];
    assert!(ensure_inside_authorized_root(&file, &roots).is_ok());
    assert_eq!(
        ensure_inside_authorized_root(&Err("nf".to_string()), &roots).err().unwrap(),
        "解析文件路径失败：nf"
    );
    assert_eq!(
        ensure_inside_authorized_root(&file, &Vec::new()).err().unwrap(),
        "拒绝读取授权目录之外的文件"
    );
}

#[test]
fn inside_archive() {
    assert!(check_inside_archive(&wpath("C:\\app\\archive\\cards"), &wpath("C:\\app\\archive")).is_ok());
    assert_eq!(
        check_inside_archive(&wpath("C:\\app\\other"), &wpath("C:\\app\\archive")).err().unwrap(),
        "拒绝写入应用留档目录之外的路径"
    );
}

#[test]
fn find_roots_by_id() {
    let roots = vec![root("root-1", "C:\\a"), root("root-2", "C:\\b"), root("root-2", "C:\\c")];
    assert_eq!(find_authorized_root(&roots, "root-2").unwrap().path, "C:\\b");
    assert_eq!(find_authorized_root(&roots, "root-9").err().unwrap(), "未找到授权目录");
}

#[test]
fn remove_roots_by_id() {
    let roots = vec![root("root-1", "C:\\a"), root("root-2", "C:\\b"), root("root-1", "C:\\c")];
    let left = remove_authorized_root(roots, "root-1");
    assert_eq!(left.len(), 1);
    assert_eq!(left[0].id, "root-2");
    let none = remove_authorized_root(left, "root-2");
    assert!(none.is_empty());
}

#[test]
fn mark_first_root_indexed() {
    let mut roots = vec![root("r", "C:\\a"), root("r", "C:\\b"), root("s", "C:\\c")];
    mark_indexed(&mut roots, "r", "99Z".to_string());
    assert_eq!(roots[0].last_indexed_at.as_deref(), Some("99Z"));
    assert_eq!(roots[1].last_indexed_at, None);
    assert_eq!(roots[2].last_indexed_at, None);
    mark_indexed(&mut roots, "zzz", "1Z".to_string());
    assert_eq!(roots[2].last_indexed_at, None);
}

#[test]
fn add_root_refusals_in_order() {
    let ok_roots = || Ok(vec![root("root-1", "C:\\a")]);
    let id = || "root-5".to_string();
    let at = || "5Z".to_string();
    let r = plan_add_authorized_root(Err("nope".into()), true, ok_roots(), None, id(), at());
    assert_eq!(r.err().unwrap(), "授权目录不存在或无法访问：nope");
    let r = plan_add_authorized_root(Ok(wpath("D:\\work\\f.txt")), false, ok_roots(), None, id(), at());
    assert_eq!(r.err().unwrap(), "授权路径必须是文件夹");
    let r = plan_add_authorized_root(Ok(wpath("C:\\Windows")), true, ok_roots(), None, id(), at());
    assert_eq!(r.err().unwrap(), "拒绝授权系统目录或敏感目录");
    let r = plan_add_authorized_root(Ok(wpath("D:\\work\\passwords")), true, ok_roots(), None, id(), at());
    assert_eq!(r.err().unwrap(), "拒绝授权系统目录或敏感目录");
    let r = plan_add_authorized_root(Ok(wpath("D:\\work")), true, Err("读取授权目录失败：x".into()), None, id(), at());
    assert_eq!(r.err().unwrap(), "读取授权目录失败：x");
}

#[test]
fn add_root_new_and_existing() {
    let roots = vec![root("root-1", "D:\\old")];
    let r = plan_add_authorized_root(
        Ok(wpath("D:\\work\\proj")),
        true,
        Ok(roots),
        Some("  ".to_string()),
        "root-5".to_string(),
        "5Z".to_string(),
    )
    .unwrap();
    let list = match r {
        AddRootOutcome::Added(new_root, list) => {
            assert_eq!(new_root.id, "root-5");
            assert_eq!(new_root.path, "D:\\work\\proj");
            assert_eq!(new_root.label, "proj");
            assert_eq!(new_root.created_at, "5Z");
            assert_eq!(new_root.last_indexed_at, None);
            list
        }
        AddRootOutcome::Existing(_) => panic!("expected a new root"),
    };
    assert_eq!(list.len(), 2);
    assert_eq!(list[1].path, "D:\\work\\proj");
    let again = plan_add_authorized_root(
        Ok(wpath("D:\\work\\proj")),
        true,
        Ok(list),
        Some("Named".to_string()),
        "root-6".to_string(),
        "6Z".to_string(),
    )
    .unwrap();
    match again {
        AddRootOutcome::Existing(r) => {
            assert_eq!(r.id, "root-5");
            assert_eq!(r.label, "proj");
        }
        AddRootOutcome::Added(..) => panic!("expected the stored root"),
    }
}

#[test]
fn add_root_label_given() {
    let r = plan_add_authorized_root(
        Ok(wpath("D:\\work\\proj")),
        true,
        Ok(Vec::new()),
        Some("My Project".to_string()),
        "root-7".to_string(),
        "7Z".to_string(),
    )
    .unwrap();
    match r {
        AddRootOutcome::Added(new_root, _) => assert_eq!(new_root.label, "My Project"),
        AddRootOutcome::Existing(_) => panic!("expected a new root"),
    }
}

#[test]
fn index_entries() {
    let r = root("root-1", "D:\\work");
    let entry = ScanEntry {
        path: wpath("D:\\work\\docs\\Guide.MD"),
        relative: Some("docs\\Guide.MD".to_string()),
        is_file: true,
        size_bytes: 120,
        modified_secs: Some(1700000000),
    };
    let item = index_entry(&r, &entry).unwrap();
    assert_eq!(item.id, "root-1:docs\\Guide.MD");
    assert_eq!(item.root_id, "root-1");
    assert_eq!(item.path, "D:\\work\\docs\\Guide.MD");
    assert_eq!(item.relative_path, "docs\\Guide.MD");
    assert_eq!(item.name, "Guide.MD");
    assert_eq!(item.extension, ".md");
    assert_eq!(item.size_bytes, 120);
    assert_eq!(item.modified_at, "1700000000Z");
    assert_eq!(item.kind, "text");

    let no_time = ScanEntry {
        path: wpath("D:\\work\\LICENSE"),
        relative: None,
        is_file: true,
        size_bytes: 1,
        modified_secs: None,
    };
    let item = index_entry(&r, &no_time).unwrap();
    assert_eq!(item.relative_path, "D:\\work\\LICENSE");
    assert_eq!(item.extension, "");
    assert_eq!(item.modified_at, "0Z");
    assert_eq!(item.kind, "unknown");
}

#[test]
fn index_skips_large_blocked_and_non_files() {
    let r = root("root-1", "D:\\work");
    let big = ScanEntry {
        path: wpath("D:\\work\\big.pdf"),
        relative: None,
        is_file: true,
        size_bytes: MAX_SCAN_FILE_BYTES + 1,
        modified_secs: None,
    };
    assert!(index_entry(&r, &big).is_none());
    let edge = ScanEntry { size_bytes: MAX_SCAN_FILE_BYTES, ..big };
    assert!(index_entry(&r, &edge).is_some());
    let secret = ScanEntry {
        path: wpath("D:\\work\\secret.txt"),
        relative: None,
        is_file: true,
        size_bytes: 1,
        modified_secs: None,
    };
    assert!(index_entry(&r, &secret).is_none());
    let link = ScanEntry {
        path: wpath("D:\\work\\link"),
        relative: None,
        is_file: false,
        size_bytes: 1,
        modified_secs: None,
    };
    assert!(index_entry(&r, &link).is_none());
}

#[test]
fn text_read_checks() {
    let root_path = || Ok(wpath("D:\\work"));
    assert!(check_text_read(Ok(wpath("D:\\work\\a.md")), root_path(), Ok(10)).is_ok());
    assert_eq!(
        check_text_read(Err("missing".into()), root_path(), Ok(10)).err().unwrap(),
        "文件不存在或无法访问：missing"
    );
    assert_eq!(
        check_text_read(Ok(wpath("D:\\other\\a.md")), root_path(), Ok(10)).err().unwrap(),
        "拒绝读取授权目录之外的文件"
    );
    assert_eq!(
        check_text_read(Ok(wpath("D:\\work\\a.md")), Err("denied".into()), Ok(10)).err().unwrap(),
        "解析授权目录失败：denied"
    );
    assert_eq!(
        check_text_read(Ok(wpath("D:\\work\\.env")), root_path(), Ok(10)).err().unwrap(),
        "拒绝读取敏感文件"
    );
    assert_eq!(
        check_text_read(Ok(wpath("D:\\work\\a.exe")), root_path(), Ok(10)).err().unwrap(),
        "只允许读取授权目录内的小型文本文件"
    );
    assert_eq!(
        check_text_read(Ok(wpath("D:\\work\\a.md")), root_path(), Err("io".into())).err().unwrap(),
        "读取文件信息失败：io"
    );
    assert_eq!(
        check_text_read(Ok(wpath("D:\\work\\a.md")), root_path(), Ok(1024 * 1024 + 1)).err().unwrap(),
        "文件超过 1MB，已拒绝读取"
    );
    assert!(check_text_read(Ok(wpath("D:\\work\\a.md")), root_path(), Ok(1024 * 1024)).is_ok());
}
