use bo_autosplitter::settings::{
    match_xml, read_settings_events, read_settings_xml, splits_file_changed, SettingUpdate, XmlItem,
    XmlSettingsReader,
};

fn s(x: &str) -> String {
    x.to_string()
}

const DOC: &str = r#"<?xml version="1.0" encoding="UTF-8"?>
<Run>
  <AutoSplitterSettings>
    <Version>1.0</Version>
    <CustomSettings>
      <Setting id="can_dash" type="bool">True</Setting>
      <Setting id="can_bat" type="bool">False</Setting>
      <Setting id="lss_file" type="string" value="C:/runs/bo.lss" />
    </CustomSettings>
  </AutoSplitterSettings>
</Run>"#;

#[test]
fn reads_flags_and_file_path_from_document() {
    let updates = read_settings_xml(DOC.as_bytes());
    assert_eq!(
        updates,
        vec![
            SettingUpdate::Flag { key: s("can_dash"), value: true },
            SettingUpdate::Flag { key: s("can_bat"), value: false },
            SettingUpdate::SplitsFile { path: s("C:/runs/bo.lss") },
        ]
    );
}

#[test]
fn settings_outside_custom_block_are_ignored() {
    let doc = r#"<Run><Setting id="can_dash">True</Setting></Run>"#;
    assert!(read_settings_xml(doc.as_bytes()).is_empty());
    assert!(read_settings_xml(b"not xml at all <<<").is_empty());
}

#[test]
fn event_machine_by_hand() {
    let items = vec![
        XmlItem::Start { name: s("CustomSettings"), attributes: vec![] },
        XmlItem::Start { name: s("Setting"), attributes: vec![(s("id"), s("credits_roll"))] },
        XmlItem::Text { text: s("True") },
        XmlItem::Text { text: s("True") },
        XmlItem::End { name: s("Setting") },
        XmlItem::Start { name: s("Setting"), attributes: vec![(s("id"), s(""))] },
        XmlItem::Text { text: s("True") },
        XmlItem::Other,
        XmlItem::End { name: s("CustomSettings") },
    ];
    assert_eq!(read_settings_events(&items), vec![SettingUpdate::Flag { key: s("credits_roll"), value: true }]);
    let mut reader = XmlSettingsReader::new();
    assert_eq!(match_xml(&XmlItem::Text { text: s("True") }, &mut reader), None);
}

#[test]
fn splits_file_change_detection() {
    assert!(!splits_file_changed(&s(""), &None));
    assert!(splits_file_changed(&s("a.lss"), &None));
    assert!(!splits_file_changed(&s("a.lss"), &Some(s("a.lss"))));
    assert!(splits_file_changed(&s("b.lss"), &Some(s("a.lss"))));
    assert!(splits_file_changed(&s(""), &Some(s("a.lss"))));
}
