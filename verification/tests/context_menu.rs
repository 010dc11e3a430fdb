use ruffle_android::context_menu::context_menu_item_descriptor;
use ruffle_android::custom_event::RuffleEvent;

#[test]
fn describes_flags_then_caption() {
    assert_eq!(context_menu_item_descriptor(true, false, true, "Zoom In"), "true false true Zoom In");
    assert_eq!(context_menu_item_descriptor(false, true, false, ""), "false true false ");
    assert_eq!(context_menu_item_descriptor(true, true, true, "日本"), "true true true 日本");
}

#[test]
fn events_carry_their_payload() {
    let event: RuffleEvent<()> = RuffleEvent::RunContextMenuCallback(3);
    assert!(matches!(event, RuffleEvent::RunContextMenuCallback(3)));
    let event: RuffleEvent<u8> = RuffleEvent::SetVirtualKeyboardVisible(true);
    assert!(matches!(event, RuffleEvent::SetVirtualKeyboardVisible(true)));
}
