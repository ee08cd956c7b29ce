pub mod deepest_leaves_sum;
pub mod event_ordering;
pub mod min_remove_to_make_valid;
pub mod num_of_islands;
pub mod reverse_list;
pub mod s0001_two_sum;
pub mod s0013_roman_to_integer;
pub mod s0014_longest_common_prefix;
pub mod s0017_letter_combination_phone_number;
pub mod s0048_rotate_image;
pub mod s0075_sort_colors;
pub mod s0539_minesweeper;
pub mod s0695_max_islands_area;
