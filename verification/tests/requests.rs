use fus_client::requests::{file_info, fus_attr, fus_xml, init_check_input, init_download, xml_escape};

#[test]
fn empty_fus_xml() {
    let xml = fus_xml(&Vec::new());
    assert_eq!(
        xml,
        r#"<?xml version="1.0" encoding="utf-8"?><FUSMsg><FUSHdr><ProtoVer>1.0</ProtoVer></FUSHdr><FUSBody><Put /></FUSBody></FUSMsg>"#
    );
}

#[test]
fn test_fus_xml() {
    let xml = fus_xml(&vec![("Foo".to_string(), "Bar".to_string())]);
    assert_eq!(
        xml,
        r#"<?xml version="1.0" encoding="utf-8"?><FUSMsg><FUSHdr><ProtoVer>1.0</ProtoVer></FUSHdr><FUSBody><Put><Foo><Data>Bar</Data></Foo></Put></FUSBody></FUSMsg>"#
    );
}

#[test]
fn test_fus_attr() {
    let mut buf = String::new();

    fus_attr(&mut buf, "Foo", "Bar");

    let xml = buf;
    assert_eq!(
        xml,
        r#"<?xml version="1.0" encoding="utf-8"?><Foo><Data>Bar</Data></Foo>"#
    );
}

#[test]
fn fus_attr_appends_to_open_document() {
    let mut buf = String::from("<Put>");
    fus_attr(&mut buf, "Foo", "Bar");
    assert_eq!(buf, "<Put><Foo><Data>Bar</Data></Foo>");
}

#[test]
fn escapes_metacharacters() {
    assert_eq!(xml_escape("a&b<c>d"), "a&amp;b&lt;c&gt;d");
    assert_eq!(xml_escape(""), "");
    let mut buf = String::from("x");
    fus_attr(&mut buf, "F", "<&>");
    assert_eq!(buf, "x<F><Data>&lt;&amp;&gt;</Data></F>");
}

#[test]
fn file_info_body() {
    let xml = file_info("SM-X200", "123456789012345", "EUX", "X200XXU1AUL5", "CHECKTOKEN");
    assert_eq!(xml, r#"<?xml version="1.0" encoding="utf-8"?><FUSMsg><FUSHdr><ProtoVer>1.0</ProtoVer></FUSHdr><FUSBody><Put><ACCESS_MODE><Data>2</Data></ACCESS_MODE><BINARY_NATURE><Data>1</Data></BINARY_NATURE><CLIENT_PRODUCT><Data>Smart Switch</Data></CLIENT_PRODUCT><DEVICE_IMEI_PUSH><Data>123456789012345</Data></DEVICE_IMEI_PUSH><DEVICE_FW_VERSION><Data>X200XXU1AUL5</Data></DEVICE_FW_VERSION><DEVICE_LOCAL_CODE><Data>EUX</Data></DEVICE_LOCAL_CODE><DEVICE_MODEL_NAME><Data>SM-X200</Data></DEVICE_MODEL_NAME><LOGIC_CHECK><Data>CHECKTOKEN</Data></LOGIC_CHECK></Put></FUSBody></FUSMsg>"#);
}

#[test]
fn init_download_body() {
    let xml = init_download("file.bin.enc4", "CHECK");
    assert_eq!(xml, r#"<?xml version="1.0" encoding="utf-8"?><FUSMsg><FUSHdr><ProtoVer>1.0</ProtoVer></FUSHdr><FUSBody><Put><BINARY_FILE_NAME><Data>file.bin.enc4</Data></BINARY_FILE_NAME><LOGIC_CHECK><Data>CHECK</Data></LOGIC_CHECK></Put></FUSBody></FUSMsg>"#);
}

#[test]
fn init_check_input_takes_base_name_tail() {
    // base name is everything before the first dot; the token source is
    // its last sixteen characters
    let r = init_check_input("SM-X200_1234567890ABCDEF.zip.enc4").unwrap();
    assert_eq!(r, "1234567890ABCDEF");
    assert_eq!(init_check_input("exactly16chars00.enc4").unwrap(), "exactly16chars00");
    assert_eq!(init_check_input("short.enc4"), None);
    assert_eq!(init_check_input(""), None);
    // without any dot the whole name is the base name
    assert_eq!(init_check_input("abcdefghij012345").unwrap(), "abcdefghij012345");
}
