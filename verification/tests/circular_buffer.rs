use wgpu_terminal::circular_buffer::granularity_from_page_size;
use wgpu_terminal::circular_buffer::{
    CircularBuffer, CreateAlignError, CreateError, aligned_length, get_allocation_granularity,
};

fn granularity() -> usize {
    get_allocation_granularity().expect("the system reports a page size")
}

#[test]
fn valid_create() {
    let block_size = granularity();
    let size = block_size * 4;
    let buffer = CircularBuffer::<u8>::new(size).unwrap();
    assert!(buffer.len() == size);
}

#[test]
fn valid_create_default() {
    let block_size = granularity();
    let size = block_size * 4;
    let buffer = CircularBuffer::<u8>::new(size).unwrap();
    let is_all_default = buffer.as_slice().iter().all(|v| *v == u8::default());
    assert!(is_all_default);
}

#[test]
fn valid_drop() {
    let block_size = granularity();
    let size = block_size * 4;
    let buffer = CircularBuffer::<u8>::new(size).unwrap();
    drop(buffer);
}

#[test]
fn valid_get_slice() {
    let block_size = granularity();
    let size = block_size * 4;
    let buffer = CircularBuffer::<u8>::new(size).unwrap();
    assert!(buffer.as_slice().len() == size);
}

#[test]
fn valid_wrapped_slice_write() {
    let block_size = granularity();
    let mut buffer = CircularBuffer::<u8>::new(block_size * 10).unwrap();
    let size = buffer.len();
    let offset = block_size;
    let write_amount = block_size * 2;
    let data: Vec<u8> = (0..write_amount).map(|i| i as u8).collect();
    buffer.write_range(size + offset, &data);
    let read = buffer.read_range(offset, offset + write_amount);
    let is_all_equal = read.iter().enumerate().all(|(i, b)| *b == i as u8);
    assert!(is_all_equal);
}

#[test]
fn valid_partial_overhang_slice_write() {
    let block_size = granularity();
    let mut buffer = CircularBuffer::<u8>::new(block_size * 10).unwrap();
    let size = buffer.len();
    let offset = block_size;
    let write_amount = block_size * 3;
    let data: Vec<u8> = (0..write_amount).map(|i| i as u8).collect();
    buffer.write_range(size - offset, &data);
    let read = buffer.read_range(size - offset, size);
    assert!(read.iter().enumerate().all(|(i, b)| *b == i as u8));
    let read = buffer.read_range(0, write_amount - offset);
    assert!(read.iter().enumerate().all(|(i, b)| *b == (i + offset) as u8));
}

#[test]
fn valid_wrapped_slice_read() {
    let block_size = granularity();
    let mut buffer = CircularBuffer::<u8>::new(block_size * 10).unwrap();
    let size = buffer.len();
    let offset = block_size;
    let write_amount = block_size * 2;
    let data: Vec<u8> = (0..write_amount).map(|i| i as u8).collect();
    buffer.write_range(offset, &data);
    let read = buffer.read_range(size + offset, size + offset + write_amount);
    assert!(read.iter().enumerate().all(|(i, b)| *b == i as u8));
}

#[test]
fn valid_partial_overhang_slice_read() {
    let block_size = granularity();
    let mut buffer = CircularBuffer::<u8>::new(block_size * 10).unwrap();
    let size = buffer.len();
    let offset = block_size;
    let write_amount = block_size * 3;
    let head: Vec<u8> = (0..offset).map(|i| i as u8).collect();
    buffer.write_range(size - offset, &head);
    let tail: Vec<u8> = (0..(write_amount - offset)).map(|i| (i + offset) as u8).collect();
    buffer.write_range(0, &tail);
    let read = buffer.read_range(size - offset, size - offset + write_amount);
    assert!(read.iter().enumerate().all(|(i, b)| *b == i as u8));
}

#[test]
fn valid_wrapped_single_write() {
    let block_size = granularity();
    let mut buffer = CircularBuffer::<u8>::new(block_size * 10).unwrap();
    let size = buffer.len();
    let offset = block_size;
    let test_value = 0x11;
    buffer.set(size + offset, test_value);
    assert!(buffer.get(offset) == test_value);
}

#[test]
fn valid_wrapped_single_read() {
    let block_size = granularity();
    let mut buffer = CircularBuffer::<u8>::new(block_size * 10).unwrap();
    let size = buffer.len();
    let offset = block_size;
    let test_value = 0x11;
    buffer.set(offset, test_value);
    assert!(buffer.get(size + offset) == test_value);
}

#[test]
fn valid_length_of_overhang_slice() {
    let block_size = granularity();
    let buffer = CircularBuffer::<u8>::new(block_size * 10).unwrap();
    let size = buffer.len();
    let offset = block_size;
    let slice = buffer.read_range(size - offset, 2 * size);
    assert!(slice.len() <= size);
}

#[test]
fn invalid_type_alignment() {
    let allocation_granularity = granularity();
    const ELEMENT_SIZE: usize = 13;
    type T = [u8; ELEMENT_SIZE];
    let size = 1024;
    let buffer = CircularBuffer::<T>::new(size);
    if let Err(err) = buffer {
        let size_bytes = ELEMENT_SIZE * size;
        let allocation_multiple = (size_bytes / allocation_granularity).max(1);
        let size_bytes = allocation_multiple * allocation_granularity;
        let total_elements = size_bytes / ELEMENT_SIZE;
        let error = CreateAlignError {
            element_size: ELEMENT_SIZE,
            total_elements,
            size_bytes,
            allocation_granularity,
        };
        assert!(err == CreateError::AlignmentError(error));
    } else {
        panic!("Circular buffer should have failed creation");
    }
}

#[test]
fn valid_create_with_badly_aligned_type() {
    let allocation_granularity = granularity();
    const ELEMENT_SIZE: usize = 13;
    type T = [u8; ELEMENT_SIZE];
    let size = allocation_granularity * ELEMENT_SIZE;
    let buffer = CircularBuffer::<T>::new(size).unwrap();
    assert!(buffer.len() == size);
}

#[derive(Clone, Copy, Debug, PartialEq, Eq)]
struct ComplexType {
    a: usize,
    b: u32,
    c: i32,
    d: [u8; 3],
    e: u8,
    f: i64,
    g: char,
}

impl ComplexType {
    fn new(index: usize) -> Self {
        Self {
            a: index,
            b: (index as u32) / 4,
            c: (index as i32) - (index * 10) as i32,
            d: [index as u8, (index + 2) as u8, (index + 15) as u8],
            e: ((index + 10) % 255) as u8,
            f: (index as i64) - 1024i64,
            g: char::from_u32(index as u32).unwrap_or('\u{1F629}'),
        }
    }
}

impl Default for ComplexType {
    fn default() -> Self {
        Self {
            a: 1024,
            b: 68,
            c: -20,
            d: [0, 4, 13],
            e: 24,
            f: -123219,
            g: '\u{1F629}',
        }
    }
}

#[test]
fn valid_complex_type_create() {
    let buffer = CircularBuffer::<ComplexType>::new(1024).unwrap();
    let size = buffer.len();
    assert!(size > 0);
}

#[test]
fn valid_complex_type_with_default() {
    let buffer = CircularBuffer::<ComplexType>::new(1024).unwrap();
    let default_value = ComplexType::default();
    let is_all_default = buffer.as_slice().iter().all(move |v| *v == default_value);
    assert!(is_all_default);
}

#[test]
fn valid_complex_type_write_overhang() {
    let mut buffer = CircularBuffer::<ComplexType>::new(1024).unwrap();
    let size = buffer.len();
    let offset = 20;
    let total = 50;
    assert!(size > offset);
    let data: Vec<ComplexType> = (0..total).map(ComplexType::new).collect();
    buffer.write_range(size - offset, &data);
    // check we have written to it
    let is_all_equal = buffer
        .read_range(size - offset, size)
        .iter()
        .enumerate()
        .all(|(i, b)| *b == ComplexType::new(i));
    assert!(is_all_equal);
    let is_all_equal = buffer
        .read_range(0, total - offset)
        .iter()
        .enumerate()
        .all(|(i, b)| *b == ComplexType::new(i + offset));
    assert!(is_all_equal);
    // check non written areas are still at default value
    let is_all_default_equal = buffer
        .read_range(total - offset, size - offset)
        .iter()
        .all(|b| *b == ComplexType::default());
    assert!(is_all_default_equal);
}

#[derive(Clone, Copy, Debug, PartialEq, Eq)]
struct BadlyAlignedType {
    data: [u8; 13],
}

impl BadlyAlignedType {
    fn new(index: usize) -> Self {
        let mut data = Self::default();
        for (i, b) in data.data.iter_mut().enumerate() {
            *b = (2 * i + index) as u8;
        }
        data
    }
}

impl Default for BadlyAlignedType {
    fn default() -> Self {
        Self { data: [1, 2, 126, 5, 1, 5, 1, 23, 40, 0, 128, 252, 255] }
    }
}

#[test]
fn valid_badly_aligned_type_create() {
    let allocation_granularity = granularity();
    let element_size = std::mem::size_of::<BadlyAlignedType>();
    assert!(element_size == 13);
    let size = allocation_granularity * element_size;
    let buffer = CircularBuffer::<BadlyAlignedType>::new(size).unwrap();
    assert!(buffer.len() == size);
}

#[test]
fn valid_badly_aligned_type_with_default() {
    let allocation_granularity = granularity();
    let size = allocation_granularity * std::mem::size_of::<BadlyAlignedType>();
    let buffer = CircularBuffer::<BadlyAlignedType>::new(size).unwrap();
    let default_value = BadlyAlignedType::default();
    assert!(buffer.as_slice().iter().all(move |v| *v == default_value));
}

#[test]
fn valid_badly_aligned_type_write_overhang() {
    let allocation_granularity = granularity();
    let size = allocation_granularity * std::mem::size_of::<BadlyAlignedType>();
    let mut buffer = CircularBuffer::<BadlyAlignedType>::new(size).unwrap();
    let offset = 20;
    let total = 50;
    assert!(size > offset);
    let data: Vec<BadlyAlignedType> = (0..total).map(BadlyAlignedType::new).collect();
    buffer.write_range(size - offset, &data);
    assert!(buffer
        .read_range(size - offset, size)
        .iter()
        .enumerate()
        .all(|(i, b)| *b == BadlyAlignedType::new(i)));
    assert!(buffer
        .read_range(0, total - offset)
        .iter()
        .enumerate()
        .all(|(i, b)| *b == BadlyAlignedType::new(i + offset)));
    assert!(buffer
        .read_range(total - offset, size - offset)
        .iter()
        .all(|b| *b == BadlyAlignedType::default()));
}

#[test]
fn aligned_length_rounds_to_whole_pages() {
    // 100 bytes round up to one page of 4096 bytes, 1024 four-byte elements
    assert_eq!(aligned_length(4, 25, 4096), Ok(1024));
    // 3 pages and a bit round down to 3 pages
    assert_eq!(aligned_length(1, 3 * 4096 + 7, 4096), Ok(3 * 4096));
}

#[test]
fn aligned_length_reports_each_error() {
    assert_eq!(
        aligned_length(13, 1024, 4096),
        Err(CreateError::AlignmentError(CreateAlignError {
            element_size: 13,
            total_elements: 12288 / 13,
            size_bytes: 12288,
            allocation_granularity: 4096,
        }))
    );
    assert_eq!(aligned_length(8, usize::MAX, 4096), Err(CreateError::FailedAllocation));
    assert!(matches!(aligned_length(0, 10, 4096), Err(CreateError::AlignmentError(_))));
}

#[test]
fn granularity_is_positive() {
    assert!(granularity() > 0);
}

#[test]
fn granularity_from_reported_page_size() {
    assert_eq!(granularity_from_page_size(Some(4096)), Some(4096));
    assert_eq!(granularity_from_page_size(Some(0)), None);
    assert_eq!(granularity_from_page_size(Some(-1)), None);
    assert_eq!(granularity_from_page_size(None), None);
}

#[test]
fn clone_holds_the_same_elements() {
    let mut buffer = CircularBuffer::<u32>::with_granularity(8, 16).unwrap();
    let len = buffer.len();
    buffer.set(1, 5);
    buffer.set(len + 2, 9);
    let copy = buffer.clone();
    assert_eq!(copy.len(), len);
    assert_eq!(copy.as_slice(), buffer.as_slice());
    assert_eq!(copy.get(len + 1), 5);
    assert_eq!(copy.get(2), 9);
}

#[test]
fn writes_through_the_mutable_slice_are_seen_at_both_indices() {
    let mut buffer = CircularBuffer::<u8>::with_granularity(4, 4).unwrap();
    let len = buffer.len();
    buffer.as_mut_slice()[3] = 0x22;
    assert_eq!(buffer.get(3), 0x22);
    assert_eq!(buffer.get(len + 3), 0x22);
}

#[test]
fn alignment_is_tested_before_the_size_limit() {
    let huge: usize = 1usize << (usize::BITS - 1);
    assert_eq!(aligned_length(3, 1, huge), Err(CreateError::AlignmentError(CreateAlignError {
        element_size: 3,
        total_elements: huge / 3,
        size_bytes: huge,
        allocation_granularity: huge,
    })));
    assert_eq!(aligned_length(2, 1, huge), Err(CreateError::FailedAllocation));
}

#[test]
fn sizes_round_down_to_whole_pages_of_whole_elements() {
    // 4-byte elements, 16-byte pages: 9 elements are 36 bytes, rounded down to 32
    assert_eq!(aligned_length(4, 9, 16), Ok(8));
    // too little for a page still takes one
    assert_eq!(aligned_length(4, 1, 16), Ok(4));
    // 3-byte elements do not fill 16-byte pages
    assert!(matches!(aligned_length(3, 9, 16), Err(CreateError::AlignmentError(_))));
}

#[test]
fn valid_clone() {
    let block_size = granularity();
    let mut buffer_0 = CircularBuffer::<u8>::new(block_size * 10).unwrap();
    for (i, b) in buffer_0.as_mut_slice().iter_mut().enumerate() {
        *b = i as u8;
    }
    let buffer_1 = buffer_0.clone();
    assert!(buffer_0.len() == buffer_1.len());
    assert!(buffer_0.as_slice() == buffer_1.as_slice());

    for (i, b) in buffer_0.as_mut_slice().iter_mut().enumerate() {
        *b = (i + 10) as u8;
    }
    assert!(buffer_0.as_slice() != buffer_1.as_slice());
}
