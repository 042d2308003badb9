use widget_containers::number::format_i32;
use widget_containers::row_widgets::{refresh_choice, refresh_row_widgets, refresh_spinbox, row_widgets, ColorSeed};

#[test]
fn spinbox_rows_seed_their_spinner() {
    let w = row_widgets("7", "spinbox:0:10:2");
    assert_eq!(w.spinbox, Some((7, 0, 10, 2)));
    assert!(!w.slider && w.text.is_none() && w.choice.is_none());
    // An unreadable value starts at the minimum.
    let w = row_widgets("x", "spinbox:3:9");
    assert_eq!(w.spinbox, Some((3, 3, 9, 1)));
}

#[test]
fn choice_rows_select_their_value() {
    let w = row_widgets("b", "choice:a,b,c");
    let (opts, sel) = w.choice.unwrap();
    assert_eq!(opts, vec!["a".to_string(), "b".to_string(), "c".to_string()]);
    assert_eq!(sel, 1);
    // A value that is no option selects the first.
    let w = row_widgets("z", "choice:a,b");
    assert_eq!(w.choice.unwrap().1, 0);
    // "choice" without options builds no dropdown.
    assert!(row_widgets("z", "choice").choice.is_none());
}

#[test]
fn text_rows_and_pickers() {
    let w = row_widgets("mass", "textpick:Norm,UV");
    assert_eq!(w.text, Some("mass".to_string()));
    assert_eq!(w.picker, Some(vec!["Norm".to_string(), "UV".to_string()]));
    let w = row_widgets("x", "text");
    assert!(w.text.is_some() && w.picker.is_none());
}

#[test]
fn toggles_colors_buttons_ramps() {
    assert_eq!(row_widgets(" True ", "toggle").toggle, Some(true));
    assert_eq!(row_widgets("no", "checkbox").toggle, Some(false));
    assert!(matches!(row_widgets("#102030", "rgb").color, Some(ColorSeed::Rgb([16, 32, 48]))));
    assert!(matches!(row_widgets("bad", "color").color, Some(ColorSeed::Rgb([255, 255, 255]))));
    assert!(matches!(row_widgets("#10203040", "rgba").color, Some(ColorSeed::Rgba([16, 32, 48, 64]))));
    assert!(matches!(row_widgets("", "rgba").color, Some(ColorSeed::Rgba([255, 255, 255, 255]))));
    assert!(row_widgets("", "button").button);
    assert_eq!(row_widgets("a;b", "ramp").ramp, Some("a;b".to_string()));
    assert!(row_widgets("0.5", "slider:0:1").slider);
    assert!(row_widgets("0:0:0", "float3:0:1").float3);
}

#[test]
fn refreshing_a_spinner_and_a_dropdown() {
    assert_eq!(refresh_spinbox("5", "spinbox:0:10", false, 2), 5);
    assert_eq!(refresh_spinbox("5", "spinbox:0:10", true, 2), 2);
    assert_eq!(refresh_spinbox("q", "spinbox:4:10", false, 2), 4);
    let old = vec!["a".to_string()];
    let (opts, sel) = refresh_choice("c", "choice:a,b,c", false, old.clone(), 0);
    assert_eq!(opts.len(), 3);
    assert_eq!(sel, 2);
    // A value outside the options keeps the selection; an open dropdown stays put.
    let (_, sel) = refresh_choice("z", "choice:a,b,c", false, old.clone(), 1);
    assert_eq!(sel, 1);
    let (opts, sel) = refresh_choice("c", "choice:a,b,c", true, old.clone(), 0);
    assert_eq!((opts, sel), (old, 0));
}

#[test]
fn integers_are_written_in_decimal() {
    assert_eq!(format_i32(0), "0");
    assert_eq!(format_i32(42), "42");
    assert_eq!(format_i32(-7), "-7");
    assert_eq!(format_i32(i32::MAX), "2147483647");
    assert_eq!(format_i32(i32::MIN), "-2147483648");
    for v in [-1000, -1, 0, 1, 9, 10, 99, 100, 12345] {
        assert_eq!(format_i32(v).parse::<i32>().unwrap(), v);
    }
}

#[test]
fn a_refresh_reaches_the_rows_first_widget() {
    // A textpick row's refresh stops at its picker: the box keeps its text.
    let w = row_widgets("mass", "textpick:Norm,UV");
    let r = refresh_row_widgets(&w, "uv", "textpick:Norm,UV", false);
    assert_eq!(r.text, Some("mass".to_string()));
    // A plain text box takes the value unless it is being edited.
    let w = row_widgets("a", "text");
    assert_eq!(refresh_row_widgets(&w, "b", "text", false).text, Some("b".to_string()));
    assert_eq!(refresh_row_widgets(&w, "b", "text", true).text, Some("a".to_string()));
    // An open dropdown stays put; a closed one selects the value.
    let w = row_widgets("a", "choice:a,b");
    assert_eq!(refresh_row_widgets(&w, "b", "choice:a,b", true).choice.unwrap().1, 0);
    assert_eq!(refresh_row_widgets(&w, "b", "choice:a,b", false).choice.unwrap().1, 1);
    // A toggle always follows.
    let w = row_widgets("true", "checkbox");
    assert_eq!(refresh_row_widgets(&w, "no", "checkbox", true).toggle, Some(false));
}
