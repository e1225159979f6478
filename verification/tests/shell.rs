use rexafs_gui::shell::focus_cycle;
use rexafs_gui::shell::{composer_menu_key, model_picker_key, MenuKeyAction};
use rexafs_gui::shell::{tab_navigation, FocusMove};
use rexafs_gui::shell::AssistantHost::{Closed, Docked, PoppedOut};
use rexafs_gui::shell::{
    account_disclosure, account_status, analysis_closed, control_key_activates, empty_state_message,
    escape_target, menu_highlight_after_key, model_picker_handles_key, starter, task_starters,
    AssistantHost, ComposerMenu, ControlState, EscapeTarget, HostAction, PanelMemory, STARTER_COUNT,
};

#[test]
fn assistant_panels_restore_every_combination_and_manual_changes() {
    for file_browser in [false, true] {
        for inspector in [false, true] {
            let state = PanelMemory {
                file_browser,
                inspector,
            };
            let mut memory = state;
            let restored = if state == PanelMemory::default() {
                PanelMemory {
                    file_browser: true,
                    inspector: true,
                }
            } else {
                state
            };
            assert_eq!(memory.toggle(PanelMemory::default()), restored);
            assert_eq!(memory.toggle(restored), PanelMemory::default());
            assert_eq!(memory.toggle(PanelMemory::default()), restored);
        }
    }
    let mut memory = PanelMemory {
        file_browser: true,
        inspector: false,
    };
    let manual = PanelMemory {
        file_browser: false,
        inspector: true,
    };
    assert_eq!(memory.toggle(manual), PanelMemory::default());
    assert_eq!(memory.toggle(PanelMemory::default()), manual);
}

#[test]
fn assistant_control_activation_leaves_shortcuts_and_other_keys_alone() {
    for key in ["enter", "space"] {
        assert!(control_key_activates(key, false));
        assert!(!control_key_activates(key, true));
    }
    for key in ["escape", "tab", "up", "down", ".", "a"] {
        for modified in [false, true] {
            assert!(!control_key_activates(key, modified));
        }
    }
}

#[test]
fn assistant_model_trigger_keeps_activation_and_escape_fallthrough() {
    for key in ["enter", "space", "up", "down"] {
        assert!(model_picker_handles_key(false, key));
        assert!(model_picker_handles_key(true, key));
    }
    assert!(!model_picker_handles_key(false, "escape"));
    assert!(model_picker_handles_key(true, "escape"));
}

#[test]
fn assistant_controls_cover_all_states() {
    for open in [false, true] {
        for connected in [false, true] {
            for signed_in in [false, true] {
                for busy in [false, true] {
                    let c = ControlState::derive(open, connected, signed_in, busy);
                    assert_eq!(c.send, open && connected && signed_in && !busy);
                    assert_eq!(c.starters, c.send);
                    assert_eq!(c.composer, open);
                    assert_eq!(c.preferences, open && !busy);
                    assert_eq!(c.stop, open && connected && signed_in && busy);
                    assert_eq!(c.navigation, open);
                    assert!(c.copy);
                    assert_eq!(c.close, !open);
                }
            }
        }
    }
}

#[test]
fn assistant_starters_are_distinct_editable_prompts() {
    let starters: Vec<(&str, &str)> = (0..STARTER_COUNT).map(starter).collect();
    for (i, (label, prompt)) in starters.iter().enumerate() {
        assert!(!label.trim().is_empty() && !prompt.trim().is_empty());
        for (other_label, other_prompt) in &starters[..i] {
            assert_ne!(label, other_label);
            assert_ne!(prompt, other_prompt);
        }
    }
}

#[test]
fn assistant_starters_match_available_data() {
    for spectrum in [false, true] {
        for paths in [false, true] {
            for fit in [false, true] {
                let starters = task_starters(spectrum, paths, fit);
                assert!(starters.len() <= 3);
                let labels: Vec<_> = starters.iter().map(|s| s.0).collect();
                assert_eq!(labels.contains(&"Check processing"), spectrum);
                assert_eq!(
                    labels.contains(&"Explain this spectrum"),
                    spectrum && !paths
                );
                assert_eq!(
                    labels.contains(&"Suggest a fit model"),
                    spectrum && paths && !fit
                );
                assert_eq!(
                    labels.contains(&"Review fit setup"),
                    spectrum && paths && fit
                );
                assert_eq!(labels.contains(&"Summarize latest fit"), spectrum && fit);
            }
        }
    }
}

#[test]
fn assistant_account_status_keeps_plan_without_email() {
    assert_eq!(
        account_status("ChatGPT · user@example.com · pro"),
        "ChatGPT · pro"
    );
    assert_eq!(account_status("API key"), "API key");
    assert_eq!(account_status("ChatGPT"), "ChatGPT");
}

#[test]
fn assistant_empty_state_priority() {
    assert_eq!(
        empty_state_message(false, false, false, false),
        analysis_closed()
    );
    assert_eq!(
        empty_state_message(true, false, false, false),
        "Retry connection"
    );
    assert_eq!(
        empty_state_message(true, true, false, false),
        "Sign in with Device login"
    );
    assert_eq!(
        empty_state_message(true, true, true, false),
        "Open a spectrum in the analysis window"
    );
    assert_eq!(
        empty_state_message(true, true, true, true),
        "Ask about the current spectrum or review its processing."
    );
}

#[test]
fn assistant_escape_priority() {
    assert_eq!(escape_target(true, true), EscapeTarget::CloseMenu);
    assert_eq!(escape_target(true, false), EscapeTarget::CloseMenu);
    assert_eq!(escape_target(false, true), EscapeTarget::Stop);
    assert_eq!(escape_target(false, false), EscapeTarget::FocusComposer);
}

#[test]
fn assistant_account_disclosure_preserves_details() {
    for label in ["ChatGPT · a@example.com · plus", "API key", "Signed in", ""] {
        assert_eq!(account_disclosure(label, true), label);
    }
    assert_eq!(
        account_disclosure("ChatGPT · a@example.com · plus", false),
        "ChatGPT"
    );
    assert_eq!(account_disclosure("API key", false), "API key");
}

#[test]
fn assistant_host_transitions() {
    assert_eq!(
        Closed.transition(HostAction::Toggle {
            prefer_docked: true
        }),
        Docked
    );
    assert_eq!(
        Closed.transition(HostAction::Toggle {
            prefer_docked: false
        }),
        PoppedOut
    );
    assert_eq!(Docked.transition(HostAction::PopOut), PoppedOut);
    assert_eq!(PoppedOut.transition(HostAction::Dock), Docked);
    assert_eq!(PoppedOut.transition(HostAction::Close), Docked);
    assert_eq!(Docked.transition(HostAction::Close), Closed);
    assert_eq!(
        Docked.transition(HostAction::Toggle {
            prefer_docked: true
        }),
        Closed
    );
    assert_eq!(
        PoppedOut.transition(HostAction::Toggle {
            prefer_docked: false
        }),
        Docked
    );
    assert_eq!(Closed.transition(HostAction::Close), Closed);
}

#[test]
fn analysis_closed_text_is_exact() {
    assert_eq!(
        analysis_closed(),
        "Analysis closed — conversation kept for copying"
    );
}

#[test]
fn toggle_law_on_concrete_values() {
    // Hiding what is shown and toggling again restores it.
    let shown = PanelMemory {
        file_browser: false,
        inspector: true,
    };
    let mut memory = PanelMemory::default();
    assert_eq!(memory.toggle(shown), PanelMemory::default());
    assert_eq!(memory, shown);
    assert_eq!(memory.toggle(PanelMemory::default()), shown);
}

#[test]
fn host_actions_are_idempotent() {
    for host in [AssistantHost::Closed, AssistantHost::Docked, AssistantHost::PoppedOut] {
        assert_eq!(
            host.transition(HostAction::Dock).transition(HostAction::Dock),
            AssistantHost::Docked
        );
        assert_eq!(
            host.transition(HostAction::PopOut).transition(HostAction::PopOut),
            AssistantHost::PoppedOut
        );
        for prefer_docked in [false, true] {
            assert_ne!(host.transition(HostAction::Toggle { prefer_docked }), host);
        }
    }
}

#[test]
fn composer_menu_identity() {
    assert_eq!(ComposerMenu::Model.index(), 0);
    assert_eq!(ComposerMenu::Reasoning.index(), 1);
    assert_eq!(ComposerMenu::Access.index(), 2);
    assert_eq!(ComposerMenu::Model.id(), "assistant-model");
    assert_eq!(ComposerMenu::Reasoning.id(), "assistant-reasoning");
    assert_eq!(ComposerMenu::Access.id(), "assistant-access");
    assert_eq!(ComposerMenu::Model.title(), "Model");
    assert_eq!(ComposerMenu::Reasoning.title(), "Reasoning");
    assert_eq!(ComposerMenu::Access.title(), "Access");
}

#[test]
fn menu_highlight_stops_at_both_ends() {
    assert_eq!(menu_highlight_after_key(0, 3, true), 0);
    assert_eq!(menu_highlight_after_key(2, 3, true), 1);
    assert_eq!(menu_highlight_after_key(0, 3, false), 1);
    assert_eq!(menu_highlight_after_key(2, 3, false), 2);
    assert_eq!(menu_highlight_after_key(0, 0, false), 0);
}

#[test]
fn account_status_with_two_parts_keeps_provider() {
    assert_eq!(account_status("ChatGPT · user@example.com"), "ChatGPT");
    assert_eq!(account_status("Other · a · b"), "Other");
    assert_eq!(account_status(""), "");
}

#[test]
fn tab_moves_focus_unless_a_command_modifier_is_held() {
    assert_eq!(tab_navigation("tab", false, false, false, false), Some(FocusMove::Next));
    assert_eq!(tab_navigation("tab", false, false, false, true), Some(FocusMove::Previous));
    assert_eq!(tab_navigation("tab", true, false, false, false), None);
    assert_eq!(tab_navigation("tab", false, true, false, false), None);
    assert_eq!(tab_navigation("tab", false, false, true, true), None);
    assert_eq!(tab_navigation("enter", false, false, false, false), None);
}

#[test]
fn model_picker_keys_open_move_choose_and_close() {
    // Three models plus the default row.
    assert_eq!(model_picker_key("tab", false, true, 0, 2, 4), MenuKeyAction::PassThrough);
    assert_eq!(model_picker_key("enter", false, false, 0, 2, 4), MenuKeyAction::Nothing);
    assert_eq!(model_picker_key("escape", true, true, 1, 2, 4), MenuKeyAction::Close);
    assert_eq!(model_picker_key("enter", true, true, 3, 2, 4), MenuKeyAction::Choose(3));
    assert_eq!(model_picker_key("space", true, true, 3, 2, 4), MenuKeyAction::Nothing);
    assert_eq!(model_picker_key("space", false, true, 0, 2, 4), MenuKeyAction::Open);
    assert_eq!(model_picker_key("down", false, true, 0, 2, 4), MenuKeyAction::Move { open_first: true, row: 3 });
    assert_eq!(model_picker_key("down", true, true, 3, 2, 4), MenuKeyAction::Move { open_first: false, row: 3 });
    assert_eq!(model_picker_key("up", true, true, 0, 2, 4), MenuKeyAction::Move { open_first: false, row: 0 });
}

#[test]
fn composer_menu_keys_follow_the_open_menu() {
    assert_eq!(composer_menu_key("escape", false, false, true, 0, 1, 3), MenuKeyAction::PassThrough);
    assert_eq!(composer_menu_key("escape", true, false, true, 0, 1, 3), MenuKeyAction::Close);
    assert_eq!(composer_menu_key("a", false, false, true, 0, 1, 3), MenuKeyAction::Nothing);
    assert_eq!(composer_menu_key("enter", true, true, true, 2, 1, 3), MenuKeyAction::Choose(2));
    assert_eq!(composer_menu_key("space", true, false, true, 2, 1, 3), MenuKeyAction::Open);
    assert_eq!(composer_menu_key("up", true, false, true, 2, 1, 3), MenuKeyAction::Move { open_first: true, row: 0 });
    assert_eq!(composer_menu_key("down", true, true, false, 2, 1, 3), MenuKeyAction::Nothing);
}

#[test]
fn dialog_focus_wraps_around_both_ways() {
    assert_eq!(focus_cycle(0, None, false), None);
    assert_eq!(focus_cycle(3, None, false), Some(0));
    assert_eq!(focus_cycle(3, None, true), Some(2));
    assert_eq!(focus_cycle(3, Some(0), false), Some(1));
    assert_eq!(focus_cycle(3, Some(2), false), Some(0));
    assert_eq!(focus_cycle(3, Some(0), true), Some(2));
    assert_eq!(focus_cycle(3, Some(1), true), Some(0));
    assert_eq!(focus_cycle(1, Some(0), true), Some(0));
    for i in 0..5 {
        assert_eq!(focus_cycle(5, focus_cycle(5, Some(i), false), true), Some(i));
    }
}
