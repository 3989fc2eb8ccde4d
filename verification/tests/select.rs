use windui::select::{measure_options, OptionWidth, CHEVRON_W, PAD_X};
use windui::{signal, Dropdown};

#[test]
fn reactive_dropdown_reflects_option_signal() {
    let opts = signal(vec!["甲".to_string(), "乙".to_string()]);
    let sel = signal(1usize);
    let dd = Dropdown::new_reactive(opts, sel);
    assert_eq!(dd.current(), "乙");
    // After the option list changes, current follows the new list at the same index.
    opts.set(vec!["X".to_string(), "Y".to_string(), "Z".to_string()]);
    assert_eq!(dd.current(), "Y");
    sel.set(2);
    assert_eq!(dd.current(), "Z");
}

#[test]
fn dropdown_current_clamps_when_index_overflows() {
    let opts = signal(vec!["a".to_string(), "b".to_string()]);
    let sel = signal(5usize); // out of range
    let dd = Dropdown::new_reactive(opts, sel);
    assert_eq!(dd.current(), "b"); // clamped to the last entry
    opts.set(vec![]); // empty list
    assert_eq!(dd.current(), ""); // no panic, empty text
}

#[test]
fn measure_empty_list_is_chrome_only_width() {
    let dd = Dropdown::new_reactive(signal(vec![]), signal(0usize));
    // An empty list has no option text to measure: only padding and chevron.
    let widths: Vec<OptionWidth> = dd.option_texts().iter().map(|_| OptionWidth { label_w: 0, badge_w: None }).collect();
    let w = measure_options(&widths, 14).w;
    assert_eq!(w, 2 * PAD_X + CHEVRON_W);
}
