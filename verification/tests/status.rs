use milcheck::mirror::Level;
use milcheck::mirror::Mirror;
use milcheck::mirror::MirrorState;
use milcheck::status::classify;
use milcheck::status::out_of_sync_section;

const OUTOFSYNC_HTML_TAG: &str = "<table id=\"outofsync_mirrors\"";
const INSYNC_HTML_TAG: &str = "<table id=\"successful_mirrors\"";

fn reference(response: &str) -> Result<String, String> {
    let v: Vec<&str> = response.split("</table>").collect();
    if v.len() != 4 {
        return Err("web scraping failed".to_string());
    }
    if v[0].find(OUTOFSYNC_HTML_TAG).is_none() {
        return Err("web scraping failed".to_string());
    }
    if v[1].find(INSYNC_HTML_TAG).is_none() {
        return Err("web scraping failed".to_string());
    }
    Ok(v[0].to_string())
}

fn ours(response: &str) -> Result<String, String> {
    match out_of_sync_section(response) {
        Ok(section) => Ok(section.into_iter().collect()),
        Err(error) => Err(error.to_string()),
    }
}

fn page() -> String {
    format!(
        "<html><h1>Status</h1>{} class=\"x\"><tr><td>https://late.example.net/</td></tr></table>\n{}><tr><td>https://mirror.example.org/archlinux/</td></tr></table><table id=\"errors\"></table></html>",
        OUTOFSYNC_HTML_TAG, INSYNC_HTML_TAG
    )
}

fn mirror(url: &str) -> Mirror {
    Mirror {
        url: url.to_string(),
        protocol: "https".to_string(),
        country: "Germany".to_string(),
        completion: "100".to_string(),
        completion_level: Level::Fine,
        delay: Some((0, 7)),
        duration_avg: "0.35".to_string(),
        duration_stddev: "0.12".to_string(),
        score: "0.9".to_string(),
        score_level: Level::Fine,
    }
}

#[test]
fn first_piece_of_a_page_as_expected() {
    let page = page();
    let section = ours(&page).unwrap();
    assert!(section.starts_with("<html><h1>Status</h1><table id=\"outofsync_mirrors\""));
    assert!(section.ends_with("https://late.example.net/</td></tr>"));
    assert_eq!(ours(&page), reference(&page));
}

#[test]
fn pages_that_are_not_as_expected() {
    let good = page();
    let cases = vec![
        String::new(),
        "</table>".to_string(),
        "</table></table></table>".to_string(),
        good.replace("outofsync_mirrors", "other"),
        good.replace("successful_mirrors", "other"),
        good.replacen("</table>", "", 1),
        format!("{}</table>", good),
        format!("</table>{}", good),
        good.replace("</table>", "</TABLE>"),
        format!("{}{}</table></table></table>", INSYNC_HTML_TAG, OUTOFSYNC_HTML_TAG),
    ];
    for case in cases {
        assert_eq!(ours(&case), Err("web scraping failed".to_string()), "{:?}", case);
        assert_eq!(ours(&case), reference(&case), "{:?}", case);
    }
}

#[test]
fn smallest_page_as_expected() {
    let page = format!("{}</table>{}</table></table>", OUTOFSYNC_HTML_TAG, INSYNC_HTML_TAG);
    assert_eq!(ours(&page), Ok(OUTOFSYNC_HTML_TAG.to_string()));
    assert_eq!(ours(&page), reference(&page));
    let both_first = format!("{}{}</table>{}</table></table>", INSYNC_HTML_TAG, OUTOFSYNC_HTML_TAG, INSYNC_HTML_TAG);
    assert_eq!(ours(&both_first), reference(&both_first));
    assert!(ours(&both_first).is_ok());
}

#[test]
fn table_ends_that_almost_overlap() {
    for case in ["</table</table>", "<</table>/table>", "</tabl</table>e>", "</table></table>x</table>"] {
        assert_eq!(ours(case), reference(case), "{:?}", case);
    }
}

#[test]
fn servers_are_classified() {
    let section: Vec<char> = ours(&page()).unwrap().chars().collect();
    let known = vec![
        mirror("https://mirror.example.org/archlinux/"),
        mirror("https://late.example.net/"),
        mirror("https://mirror.example.org/archlinux/"),
    ];
    let servers = vec![
        "https://late.example.net/".to_string(),
        "https://unknown.example.com/".to_string(),
        "https://mirror.example.org/archlinux/".to_string(),
        "https://late.example.net".to_string(),
    ];
    let states = classify(servers, &known, &section);
    assert_eq!(states.len(), 4);
    assert!(matches!(&states[0], MirrorState::OutOfSync(m) if m.url == "https://late.example.net/"));
    assert!(matches!(&states[1], MirrorState::NotFound(s) if s == "https://unknown.example.com/"));
    assert!(matches!(&states[2], MirrorState::Synced(m) if m.url == "https://mirror.example.org/archlinux/"));
    assert!(matches!(&states[3], MirrorState::NotFound(s) if s == "https://late.example.net"));
}

#[test]
fn first_known_mirror_with_the_address_is_taken() {
    let mut first = mirror("https://a/");
    first.country = "First".to_string();
    let mut second = mirror("https://a/");
    second.country = "Second".to_string();
    let states = classify(vec!["https://a/".to_string()], &[first, second], &Vec::new());
    assert!(matches!(&states[0], MirrorState::Synced(m) if m.country == "First" && m.delay == Some((0, 7))));
}

#[test]
fn nothing_to_classify() {
    assert!(classify(vec![], &[mirror("https://a/")], &vec!['x']).is_empty());
}
