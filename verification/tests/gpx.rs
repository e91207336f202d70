use cfait::gpx::gpx_document;

#[test]
fn gpx_with_waypoints() {
    let wps = vec![
        ("Tom & Jerry <home>".to_string(), " 48.85 , 2.35 ".to_string()),
        ("nowhere".to_string(), "48.85".to_string()),
        ("Park".to_string(), "1,2,3".to_string()),
    ];
    let doc = gpx_document(&wps);
    let expected = String::from(
        "<?xml version=\"1.0\" encoding=\"UTF-8\"?>\n<gpx version=\"1.1\" creator=\"Cfait\" xmlns=\"http://www.topografix.com/GPX/1/1\">\n",
    ) + "  <wpt lat=\"48.85\" lon=\"2.35\"><name>Tom &amp; Jerry &lt;home&gt;</name></wpt>\n"
        + "  <wpt lat=\"1\" lon=\"2\"><name>Park</name></wpt>\n"
        + "</gpx>";
    assert_eq!(doc, expected);
}

#[test]
fn gpx_without_waypoints() {
    let doc = gpx_document(&vec![]);
    assert!(doc.ends_with("xmlns=\"http://www.topografix.com/GPX/1/1\">\n</gpx>"));
}
