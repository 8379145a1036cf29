use huidu_player::program::parser::{
    parse_program_xml, Framing, ParseError, ParseErrorKind,
};
use huidu_player::protocol::command::extract_attr;

fn count(text: &str, pattern: &str) -> usize {
    text.matches(pattern).count()
}

#[test]
fn test_parse_simple_program() {
    let xml = r##"
        <screen timeStamps="12345">
          <program guid="abc-123" name="Test" type="normal">
            <area guid="area-1" name="Main" alpha="255">
              <rectangle x="0" y="0" width="128" height="64"/>
              <resources>
                <text guid="txt-1" singleLine="true">
                  <string>Hello World</string>
                  <effect in="0" out="0" inSpeed="0" outSpeed="0" duration="50"/>
                  <font size="12" color="#ff0000"/>
                  <style align="center" valign="middle"/>
                </text>
              </resources>
            </area>
          </program>
        </screen>
        "##;

    let doc = parse_program_xml(xml).unwrap();
    assert_eq!(doc.framing, Framing::Bare);
    assert_eq!(doc.text, xml.trim());
    assert_eq!(count(doc.text, "<program "), 1);
    assert_eq!(extract_attr(doc.text, "program", "guid"), Some("abc-123".to_string()));
    assert_eq!(count(doc.text, "<area "), 1);
    assert_eq!(extract_attr(doc.text, "rectangle", "width"), Some("128".to_string()));
    assert_eq!(extract_attr(doc.text, "rectangle", "height"), Some("64".to_string()));
    assert_eq!(count(doc.text, "<text "), 1);
}

#[test]
fn test_parse_sdk_wrapped() {
    let xml = r#"<?xml version="1.0" encoding="utf-8"?>
        <sdk guid="session-guid">
          <in method="AddProgram">
            <screen>
              <program guid="prog-1" name="NewProgram" type="normal">
                <area guid="area-1">
                  <rectangle width="128" height="64" x="0" y="0"/>
                  <resources>
                    <image guid="img-1" fit="stretch">
                      <effect in="17" out="17" inSpeed="3" outSpeed="3" duration="50"/>
                      <file name="logo.png"/>
                    </image>
                  </resources>
                </area>
              </program>
            </screen>
          </in>
        </sdk>
        "#;

    let doc = parse_program_xml(xml).unwrap();
    assert_eq!(doc.framing, Framing::SdkWrapped);
    assert!(doc.text.starts_with("<screen>"));
    assert!(doc.text.ends_with("</screen>"));
    assert_eq!(count(doc.text, "<program "), 1);
}

#[test]
fn test_parse_clock() {
    let xml = r##"
        <screen>
          <program guid="p1" type="normal">
            <area guid="a1">
              <rectangle x="0" y="0" width="128" height="64"/>
              <resources>
                <clock guid="clk-1" type="digital" timezone="+8:00">
                  <date format="1" color="#00ff00" display="true"/>
                  <time format="1" color="#ffffff" display="true"/>
                  <week format="2" color="#ffff00" display="true"/>
                </clock>
              </resources>
            </area>
          </program>
        </screen>
        "##;

    let doc = parse_program_xml(xml).unwrap();
    assert_eq!(count(doc.text, "<program "), 1);
    assert_eq!(count(doc.text, "<clock "), 1);
}

#[test]
fn three_framings_give_the_same_document() {
    let screen = "<screen timeStamps=\"1\"><program guid=\"p\"></program></screen>";
    let bare = parse_program_xml(screen).unwrap();
    assert_eq!(bare.text, screen);
    assert_eq!(bare.framing, Framing::Bare);
    let declared = format!("<?xml version=\"1.0\" encoding=\"utf-8\"?>{screen}");
    assert_eq!(parse_program_xml(&declared).unwrap().text, screen);
    let wrapped = format!("<sdk guid=\"g\"><in method=\"AddProgram\">{screen}</in></sdk>");
    let found = parse_program_xml(&wrapped).unwrap();
    assert_eq!(found.text, screen);
    assert_eq!(found.framing, Framing::SdkWrapped);
    let both = format!("<?xml version=\"1.0\"?>\n  {wrapped}\n");
    assert_eq!(parse_program_xml(&both).unwrap().text, screen);
    let padded = format!("\u{a0}\t\r\n{screen}\u{3000} \n");
    assert_eq!(parse_program_xml(&padded).unwrap().text, screen);
}

#[test]
fn envelope_takes_first_opening_to_last_closing_tag() {
    let xml = "<sdk><screen a=\"1\"></screen><screen b=\"2\"></screen></sdk>";
    let doc = parse_program_xml(xml).unwrap();
    assert_eq!(doc.text, "<screen a=\"1\"></screen><screen b=\"2\"></screen>");
}

fn kind(xml: &str) -> ParseErrorKind {
    parse_program_xml(xml).unwrap_err().kind
}

#[test]
fn errors_are_told_apart() {
    assert_eq!(kind(""), ParseErrorKind::UnknownFormat);
    assert_eq!(kind("hello"), ParseErrorKind::UnknownFormat);
    assert_eq!(kind("<?xml version=\"1.0\""), ParseErrorKind::MalformedDeclaration);
    assert_eq!(kind("<?xml?><?xml?><screen/>"), ParseErrorKind::UnknownFormat);
    assert_eq!(kind("<?xml?>   "), ParseErrorKind::UnknownFormat);
    assert_eq!(kind("<sdk></sdk>"), ParseErrorKind::NoScreenElement);
    assert_eq!(kind("<sdk><screen></sdk>"), ParseErrorKind::NoClosingTag);
    // the closing tag lies before the element
    assert_eq!(kind("<sdk></screen>  <screen"), ParseErrorKind::NoClosingTag);
    // the closing tag ends where the element starts: an empty document
    assert_eq!(parse_program_xml("<sdk></screen><screen").unwrap().text, "");
}

#[test]
fn error_messages() {
    let message = |xml: &str| parse_program_xml(xml).unwrap_err().message();
    assert_eq!(message("<sdk></sdk>"), "No <screen> element found inside SDK XML");
    assert_eq!(message("<sdk><screen></sdk>"), "No closing </screen> tag found");
    assert_eq!(message("<?xml"), "Malformed XML declaration");
    assert_eq!(
        message("  nothing here  "),
        "Unknown XML format, expected <screen> or <sdk>, got: nothing here..."
    );
    let long = "x".repeat(80);
    assert_eq!(
        message(&long),
        format!("Unknown XML format, expected <screen> or <sdk>, got: {}...", "x".repeat(50))
    );
    // the quoted start ends at a character boundary
    let euros = "\u{20ac}".repeat(30);
    assert_eq!(
        message(&euros),
        format!("Unknown XML format, expected <screen> or <sdk>, got: {}...", "\u{20ac}".repeat(16))
    );
    assert_eq!(
        ParseError::invalid_screen(Framing::Bare).message(),
        "Failed to parse <screen> XML"
    );
    assert_eq!(
        ParseError::invalid_screen(Framing::SdkWrapped).message(),
        "Failed to parse <screen> from SDK XML"
    );
}
