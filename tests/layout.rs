use tagdriver::composer::draw_order;
use tagdriver::layout::{bar_fill, bar_layout, workspace_dots, BarLayout, Dot};

#[test]
fn dialog_bar_is_laid_out_on_the_canvas() {
    assert_eq!(bar_layout(250, 122), BarLayout { x: 77, y: 31, icon_x: 37, icon_y: 61 });
    assert_eq!(bar_layout(100, 40), BarLayout { x: 30, y: 0, icon_x: -10, icon_y: 20 });
}

#[test]
fn bar_fill_follows_the_percentage() {
    assert_eq!(bar_fill(155, 0), 0);
    assert_eq!(bar_fill(155, 50), 77);
    assert_eq!(bar_fill(155, 100), 155);
    assert_eq!(bar_fill(155, 250), 155);
}

#[test]
fn workspace_marks_are_centred_with_the_active_pill() {
    let dots = workspace_dots(250, 40, 1, 3);
    assert_eq!(
        dots,
        vec![
            Dot { x: 70, y: 10, width: 20, active: false },
            Dot { x: 100, y: 10, width: 50, active: true },
            Dot { x: 160, y: 10, width: 20, active: false },
        ]
    );
    assert!(workspace_dots(250, 40, 0, 0).is_empty());
}

#[test]
fn priorities_are_sorted_descending_and_stable() {
    assert_eq!(draw_order(&vec![3, 5, 0, 7, 3], &vec![false; 5]), vec![3, 1, 0, 4]);
    assert_eq!(draw_order(&vec![1, 2, 3, 4], &vec![false; 4]), vec![3, 2, 1, 0]);
}
