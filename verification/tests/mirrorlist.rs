use milcheck::mirrorlist::parse_mirrorlist;

fn reference(content: &str) -> Result<Vec<String>, String> {
    let mut mirrors = vec![];
    for line in content.lines() {
        if let Some(url) = line.strip_prefix("Server = ") {
            if line.ends_with("/$repo/os/$arch") {
                let end = url.len() - 14;
                mirrors.push(String::from(&url[..end]));
            } else if line.ends_with("/$repo/os/$arch/") {
                let end = url.len() - 15;
                mirrors.push(String::from(&url[..end]));
            } else {
                mirrors.push(String::from(url));
            }
        }
    }
    if mirrors.is_empty() {
        Err(format!("no server found in {}", "/etc/pacman.d/mirrorlist"))
    } else {
        Ok(mirrors)
    }
}

#[test]
fn servers_are_read_in_order() {
    let content = "##\n## Arch Linux repository mirrorlist\n##\n\n## Germany\nServer = https://mirror.one.de/archlinux/$repo/os/$arch\n#Server = https://commented.out/$repo/os/$arch\nServer = http://two.example.org/arch/$repo/os/$arch/\nServer = https://three.example.org/plain\n";
    assert_eq!(
        parse_mirrorlist(content),
        Ok(vec![
            "https://mirror.one.de/archlinux/".to_string(),
            "http://two.example.org/arch/".to_string(),
            "https://three.example.org/plain".to_string(),
        ])
    );
    assert_eq!(parse_mirrorlist(content), reference(content));
}

#[test]
fn no_server_is_an_error() {
    assert_eq!(parse_mirrorlist(""), Err("no server found in /etc/pacman.d/mirrorlist".to_string()));
    assert_eq!(
        parse_mirrorlist("# Server = x\n server = y\nServer= z\n Server = w\n"),
        Err("no server found in /etc/pacman.d/mirrorlist".to_string())
    );
    assert_eq!(parse_mirrorlist("\n\n\n"), reference("\n\n\n"));
}

#[test]
fn line_endings() {
    for content in [
        "Server = a/$repo/os/$arch",
        "Server = a/$repo/os/$arch\n",
        "Server = a/$repo/os/$arch\r\n",
        "Server = a/$repo/os/$arch\r\nServer = b\r\n\r\nServer = c",
        "Server = a\r",
        "Server = a\r\r\n",
        "\nServer = a\n\n",
        "\r\nServer = a",
        "Server = a\nServer = ",
        "Server = \n",
    ] {
        assert_eq!(parse_mirrorlist(content), reference(content), "{:?}", content);
    }
    assert_eq!(parse_mirrorlist("Server = a/$repo/os/$arch\r\nServer = b"), Ok(vec!["a/".to_string(), "b".to_string()]));
}

#[test]
fn shortest_lines_with_the_usual_path() {
    for content in ["Server = /$repo/os/$arch", "Server = /$repo/os/$arch/", "Server = $repo/os/$arch"] {
        assert_eq!(parse_mirrorlist(content), reference(content), "{:?}", content);
    }
    assert_eq!(parse_mirrorlist("Server = /$repo/os/$arch"), Ok(vec!["/".to_string()]));
    assert_eq!(parse_mirrorlist("Server = /$repo/os/$arch/"), Ok(vec!["/".to_string()]));
}

#[test]
fn addresses_beyond_ascii() {
    let content = "Server = https://münchen.example/ä/$repo/os/$arch\nServer = https://日本.example/\n";
    assert_eq!(
        parse_mirrorlist(content),
        Ok(vec!["https://münchen.example/ä/".to_string(), "https://日本.example/".to_string()])
    );
    assert_eq!(parse_mirrorlist(content), reference(content));
}
