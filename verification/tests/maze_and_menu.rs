use multiplayer_fps::graphics::resources::PlayerCountState;
use multiplayer_fps::graphics::states::{GameState, MenuState};
use multiplayer_fps::graphics::systems::button::MenuButtonAction;
use multiplayer_fps::graphics::systems::menu::{menu_action, MenuMessage};
use multiplayer_fps::graphics::systems::waitting_page::check_player_count;
use multiplayer_fps::maze::maze::{calculate_maze_dimensions, is_minimap_floor, plan_maze, Feature, Placement};
use multiplayer_fps::maze::textures::{arch_placement, generate_tree, house_style, ArchPlacement, TREE_CHILDREN, TREE_LEVELS};

#[test]
fn maze_plan_reads_cells() {
    let grid = vec![vec![1, 0, 2], vec![3, 4, 5], vec![9, 0]];
    assert_eq!(calculate_maze_dimensions(&grid), (3, 3));
    let plan = plan_maze(&grid);
    assert_eq!(
        plan,
        vec![
            Placement { row: 0, col: 0, feature: Feature::Wall },
            Placement { row: 0, col: 2, feature: Feature::Arch(ArchPlacement::Straight) },
            Placement { row: 1, col: 0, feature: Feature::Tree },
            Placement { row: 1, col: 1, feature: Feature::House(1) },
            Placement { row: 1, col: 2, feature: Feature::Wall },
        ]
    );
    assert!(plan_maze(&vec![]).is_empty());
}

#[test]
fn special_arches_and_houses() {
    assert_eq!(arch_placement(29, 22), ArchPlacement::QuarterWest);
    assert_eq!(arch_placement(30, 22), ArchPlacement::QuarterEast);
    assert_eq!(arch_placement(19, 35), ArchPlacement::Straight);
    assert_eq!(house_style(7, 29), 2);
    assert_eq!(house_style(2, 16), 3);
    assert_eq!(house_style(7, 16), 3);
    assert_eq!(house_style(4, 34), 4);
    assert_eq!(house_style(10, 8), 5);
    assert_eq!(house_style(4, 12), 6);
    assert_eq!(house_style(12, 36), 7);
    assert_eq!(house_style(9, 36), 8);
    assert_eq!(house_style(29, 7), 1);
}

#[test]
fn minimap_tiles() {
    assert!(is_minimap_floor(0));
    assert!(is_minimap_floor(2));
    assert!(!is_minimap_floor(1));
    assert!(!is_minimap_floor(4));
}

#[test]
fn tree_shape() {
    let t = generate_tree(2, 1);
    assert_eq!(t.len(), 5);
    assert_eq!(t[0].parent, None);
    assert_eq!((t[1].parent, t[1].child_index, t[1].is_leaf), (Some(0), 0, false));
    assert_eq!((t[2].parent, t[2].is_leaf), (Some(1), true));
    assert_eq!((t[3].parent, t[3].child_index, t[3].is_leaf), (Some(0), 1, false));
    assert_eq!((t[4].parent, t[4].is_leaf), (Some(3), true));
    let t = generate_tree(TREE_CHILDREN, TREE_LEVELS);
    // 1 root, 3 + 9 + 27 + 81 + 243 branches, 243 leaves
    assert_eq!(t.len(), 1 + 363 + 243);
    assert_eq!(t.iter().filter(|n| n.is_leaf).count(), 243);
    for (k, n) in t.iter().enumerate().skip(1) {
        let p = n.parent.unwrap();
        assert!(p < k);
        assert!(!t[p].is_leaf);
    }
    assert_eq!(generate_tree(0, 5).len(), 1);
}

/// Depth of element `k`: how many steps lead from it to the root.
fn depth_of(t: &[multiplayer_fps::maze::textures::TreeNode], k: usize) -> usize {
    match t[k].parent {
        None => 0,
        Some(p) => depth_of(t, p) + 1,
    }
}

#[test]
fn tree_branches_and_leaves() {
    for (c, levels) in [(3u8, 5u8), (2, 0), (2, 1), (4, 2)] {
        let t = generate_tree(c, levels);
        let top = if levels >= 1 { levels as usize } else { 1 };
        let leaves = t.iter().filter(|n| n.is_leaf).count();
        assert_eq!(leaves, (c as usize).pow(top as u32));
        for k in 0..t.len() {
            let kids: Vec<usize> = (0..t.len()).filter(|&j| t[j].parent == Some(k)).collect();
            let d = depth_of(&t, k);
            if t[k].is_leaf {
                assert!(kids.is_empty());
                assert_eq!(d, top + 1);
            } else if d < top {
                assert_eq!(kids.len(), c as usize);
                assert!(kids.iter().all(|&j| !t[j].is_leaf));
            } else {
                assert_eq!(d, top);
                assert_eq!(kids.len(), 1);
                assert!(t[kids[0]].is_leaf);
            }
        }
    }
}

#[test]
fn menu_buttons() {
    assert_eq!(MenuButtonAction::from_label("Play"), MenuButtonAction::Play);
    assert_eq!(MenuButtonAction::from_label("Helps"), MenuButtonAction::Options);
    assert_eq!(MenuButtonAction::from_label("Quit"), MenuButtonAction::Quit);
    let o = menu_action(MenuButtonAction::Play);
    assert_eq!(o.next_game_state, Some(GameState::Waitting));
    assert_eq!(o.next_menu_state, Some(MenuState::Disabled));
    assert_eq!(o.send, Some(MenuMessage::Ready));
    assert!(!o.exit);
    let o = menu_action(MenuButtonAction::Quit);
    assert_eq!(o.send, Some(MenuMessage::Disconnect));
    assert!(o.exit);
    let o = menu_action(MenuButtonAction::Options);
    assert_eq!(o.next_menu_state, Some(MenuState::Options));
    assert_eq!(o.send, None);
}

#[test]
fn waiting_room_moves_on_when_enough_players() {
    let mut st = PlayerCountState::new();
    assert_eq!(check_player_count(&st), None);
    st.has_enough_players = true;
    assert_eq!(check_player_count(&st), Some(GameState::Game));
    assert_eq!(PlayerCountState::default(), PlayerCountState::new());
}

