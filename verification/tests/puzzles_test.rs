use instructions::puzzle::deepest_leaves_sum::{Solution as TreeSolution, TreeNode};
use instructions::puzzle::event_ordering::{parse, Item};
use instructions::puzzle::min_remove_to_make_valid::{
    min_remove_to_make_valid, min_remove_to_make_valid_zero_alloc,
    Solution as ParenSolution,
};
use instructions::puzzle::num_of_islands::num_islands;
use instructions::puzzle::reverse_list::{reverse_list, ListNode};
use instructions::puzzle::s0001_two_sum::two_sum;
use instructions::puzzle::s0013_roman_to_integer::Solution as RomanSolution;
use instructions::puzzle::s0014_longest_common_prefix::{
    longest_common_prefix, longest_common_prefix_again, longest_common_prefix_alt,
};
use instructions::puzzle::s0017_letter_combination_phone_number::letter_combinations;
use instructions::puzzle::s0048_rotate_image::{rotate, Solution as RotateSolution};
use instructions::puzzle::s0075_sort_colors::sort_colors;
use instructions::puzzle::s0539_minesweeper::update_board;
use instructions::puzzle::s0695_max_islands_area::max_area_of_islands;

#[test]
fn test_two_sum() {
    assert_eq!(vec![0, 1], two_sum(vec![2, 7, 11, 15], 9));
    assert_eq!(vec![1, 2], two_sum(vec![3, 2, 4], 6));
}

#[test]
fn test_13() {
    assert_eq!(RomanSolution::roman_to_int("III".to_string()), 3);
    assert_eq!(RomanSolution::roman_to_int("IV".to_string()), 4);
    assert_eq!(RomanSolution::roman_to_int("IX".to_string()), 9);
    assert_eq!(RomanSolution::roman_to_int("MCMXCIV".to_string()), 1994);
    assert_eq!(RomanSolution::roman_to_int("DCXXI".to_string()), 621);
}

#[test]
fn ex1() {
    let digits = "23".to_string();
    assert_eq!(
        vec!["ad", "ae", "af", "bd", "be", "bf", "cd", "ce", "cf"],
        letter_combinations(digits)
    );
}

#[test]
fn s0075_sort_colors_test1() {
    let mut nums = vec![2, 0, 2, 1, 1, 0];
    sort_colors(&mut nums);
    assert_eq!(nums, vec![0, 0, 1, 1, 2, 2]);
}

#[test]
fn s0075_sort_colors_test2() {
    let mut nums = vec![2, 0, 2, 1, 1, 0];
    sort_colors(&mut nums);
    assert_eq!(nums, vec![0, 0, 1, 1, 2, 2]);
}

#[test]
fn basic() {
    assert_eq!(
        num_islands(vec![
            vec!['1', '1', '1', '1', '0'],
            vec!['1', '1', '0', '1', '0'],
            vec!['1', '1', '0', '0', '0'],
            vec!['0', '0', '0', '0', '0'],
        ]),
        1
    );
}

#[test]
fn num_of_islands_test1() {
    let grid = vec![
        vec!['1', '1', '0', '0', '0'],
        vec!['1', '1', '0', '0', '0'],
        vec!['0', '0', '1', '0', '0'],
        vec!['0', '0', '0', '1', '1'],
    ];
    assert_eq!(num_islands(grid), 3);
}

#[test]
fn num_of_islands_test2() {
    let grid = vec![
        vec!['1', '1', '0', '0', '0'],
        vec!['1', '1', '0', '0', '0'],
        vec!['0', '0', '1', '0', '0'],
        vec!['0', '0', '0', '1', '1'],
    ];
    assert_eq!(num_islands(grid), 3);
}

#[test]
fn test3() {
    let grid = vec![
        vec!['1', '1', '0', '0', '0'],
        vec!['1', '1', '0', '0', '0'],
        vec!['0', '0', '1', '0', '0'],
        vec!['0', '0', '0', '1', '1'],
    ];
    assert_eq!(num_islands(grid), 3);
}

#[test]
fn minesweeper_test() {
    let grid = vec![
        vec!['E', 'E', 'E', 'E', 'E'],
        vec!['E', 'E', 'M', 'E', 'E'],
        vec!['E', 'E', 'E', 'E', 'E'],
        vec!['E', 'E', 'E', 'E', 'E'],
    ];
    let resp = vec![
        vec!['B', '1', 'E', '1', 'B'],
        vec!['B', '1', 'M', '1', 'B'],
        vec!['B', '1', '1', '1', 'B'],
        vec!['B', 'B', 'B', 'B', 'B'],
    ];
    assert_eq!(resp, update_board(grid, vec![3, 0]));
}

#[test]
fn minesweeper_test_2() {
    let grid = vec![
        vec!['B', '1', 'E', '1', 'B'],
        vec!['B', '1', 'M', '1', 'B'],
        vec!['B', '1', '1', '1', 'B'],
        vec!['B', 'B', 'B', 'B', 'B'],
    ];
    let resp = vec![
        vec!['B', '1', 'E', '1', 'B'],
        vec!['B', '1', 'X', '1', 'B'],
        vec!['B', '1', '1', '1', 'B'],
        vec!['B', 'B', 'B', 'B', 'B'],
    ];
    assert_eq!(resp, update_board(grid, vec![1, 2]));
}

#[test]
fn max_area_island_test_1() {
    let grid = vec![
        vec![0, 0, 1, 0, 0, 0, 0, 1, 0, 0, 0, 0, 0],
        vec![0, 0, 0, 0, 0, 0, 0, 1, 1, 1, 0, 0, 0],
        vec![0, 1, 1, 0, 1, 0, 0, 0, 0, 0, 0, 0, 0],
        vec![0, 1, 0, 0, 1, 1, 0, 0, 1, 0, 1, 0, 0],
        vec![0, 1, 0, 0, 1, 1, 0, 0, 1, 1, 1, 0, 0],
        vec![0, 0, 0, 0, 0, 0, 0, 0, 0, 0, 1, 0, 0],
        vec![0, 0, 0, 0, 0, 0, 0, 1, 1, 1, 0, 0, 0],
        vec![0, 0, 0, 0, 0, 0, 0, 1, 1, 0, 0, 0, 0],
    ];
    assert_eq!(6, max_area_of_islands(grid));
}

#[test]
fn max_area_island_test_2() {
    let grid = vec![vec![0, 0, 0, 0, 0, 0, 0, 0]];
    assert_eq!(0, max_area_of_islands(grid))
}

#[test]
fn test_longest_common_prefix() {
    assert_eq!(
        "fl".to_string(),
        longest_common_prefix(vec![
            "flower".to_string(),
            "flow".to_string(),
            "flight".to_string()
        ])
    );
}

#[test]
fn test_longest_common_prefix_alt() {
    assert_eq!(
        "fl".to_string(),
        longest_common_prefix_alt(vec![
            "flower".to_string(),
            "flow".to_string(),
            "flight".to_string()
        ])
    );
    assert_eq!(
        "fl".to_string(),
        longest_common_prefix_alt(vec![
            "flower".to_string(),
            "flow".to_string(),
            "flight".to_string()
        ])
    );
    assert_eq!(
        "".to_string(),
        longest_common_prefix_alt(vec![
            "racecar".to_string(),
            "flight".to_string(),
            "".to_string()
        ])
    );
}

#[test]
fn test_14() {
    assert_eq!(
        longest_common_prefix_again(vec![
            "".to_string(),
            "racecar".to_string(),
            "car".to_string()
        ]),
        ""
    );
    assert_eq!(
        longest_common_prefix_again(vec![
            "flower".to_string(),
            "flow".to_string(),
            "flight".to_string()
        ]),
        "fl"
    );
    assert_eq!(longest_common_prefix_again(vec![]), "");
}

#[test]
fn test_48() {
    let mut matrix = vec![
        vec![5, 1, 9, 11],
        vec![2, 4, 8, 10],
        vec![13, 3, 6, 7],
        vec![15, 14, 12, 16],
    ];
    rotate(&mut matrix);
    assert_eq!(
        matrix,
        vec![
            vec![15, 13, 2, 5],
            vec![14, 3, 4, 1],
            vec![12, 6, 8, 9],
            vec![16, 7, 10, 11]
        ]
    );
}

#[test]
fn test_48_s() {
    let mut matrix = vec![
        vec![5, 1, 9, 11],
        vec![2, 4, 8, 10],
        vec![13, 3, 6, 7],
        vec![15, 14, 12, 16],
    ];
    RotateSolution::rotate(&mut matrix);
    assert_eq!(
        matrix,
        vec![
            vec![15, 13, 2, 5],
            vec![14, 3, 4, 1],
            vec![12, 6, 8, 9],
            vec![16, 7, 10, 11]
        ]
    );
}

#[test]
fn test_reverse_list() {
    let mut list = None;
    for value in 0..5 {
        list = Some(Box::new(ListNode { value, next: list }));
    }
    println!("list: {:?}", list);
    println!("reverse: {:?}", reverse_list(list));
}

#[test]
fn reversing_keeps_the_values_in_opposite_order() {
    let mut list = None;
    for value in 0..5u8 {
        list = Some(Box::new(ListNode { value, next: list }));
    }
    let mut reversed = reverse_list(list);
    let mut seen = Vec::new();
    while let Some(node) = reversed {
        seen.push(node.value);
        reversed = node.next;
    }
    assert_eq!(seen, vec![0, 1, 2, 3, 4]);
}

#[test]
fn removing_parentheses_leaves_balanced_text() {
    assert_eq!(min_remove_to_make_valid("lee(t(c)o)de)".to_string()), "lee(t(c)o)de");
    assert_eq!(min_remove_to_make_valid("a)b(c)d".to_string()), "ab(c)d");
    assert_eq!(min_remove_to_make_valid("))((".to_string()), "");
    assert_eq!(ParenSolution::min_remove_to_make_valid("(a(b(c)d)".to_string()), "(a(bc)d)");
    assert_eq!(min_remove_to_make_valid_zero_alloc("lee(t(c)o)de)".to_string()), "lee(t(c)o)de");
    assert_eq!(min_remove_to_make_valid_zero_alloc("()(((".to_string()), "()");
}

#[test]
fn the_deepest_level_is_summed() {
    let mut root = TreeNode::new(1);
    let mut left = TreeNode::new(2);
    left.left = Some(Box::new(TreeNode::new(4)));
    let mut right = TreeNode::new(3);
    right.right = Some(Box::new(TreeNode::new(5)));
    root.left = Some(Box::new(left));
    root.right = Some(Box::new(right));
    assert_eq!(TreeSolution::deepest_leaves_sum(Some(Box::new(root))), 9);
    assert_eq!(TreeSolution::deepest_leaves_sum(None), 0);
}

#[test]
fn test_parse() {
    let items = "\ntx_id,start,end\na,1,5\nb,2,3\nc,4,6\n";
    let mut rows = Vec::new();
    for line in items.lines().filter(|line| !line.is_empty()).skip(1) {
        let mut a = line.splitn(3, ",");
        match (a.next(), a.next(), a.next()) {
            (Some(tx_id), Some(start), Some(end)) => {
                rows.push((tx_id, start.parse::<u64>().unwrap(), end.parse::<u64>().unwrap()));
            }
            _ => unreachable!(),
        }
    }
    assert_eq!(rows, vec![("a", 1, 5), ("b", 2, 3), ("c", 4, 6)]);
}

#[test]
fn test_alt() {
    let items = "\ntx_id,start,end\na,1,5\nb,2,3\nc,4,6\n";
    let mut parsed = Vec::new();
    for line in items.lines().skip(2) {
        let parts: Vec<Item<'_>> = line.split(",").map(parse).collect();
        parsed.push(parts);
    }
    println!("{:?}", parsed);
    assert!(matches!(parse("17"), Item::Start(17)));
    assert!(matches!(parse("tx"), Item::Tx("tx")));
    assert!(matches!(parse(""), Item::Tx("")));
    assert!(matches!(parse("+8"), Item::Start(8)));
    assert!(matches!(parse("99999999999999999999999"), Item::Tx(_)));
}
