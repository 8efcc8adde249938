use rtxon::image::{render_row, Image};
use rtxon::pool::worker_count;
use scoped_threadpool::Pool;

fn stamp(x: u32, y: u32) -> [u32; 4] {
    [x, y, x.wrapping_mul(2_654_435_761) ^ y, !x ^ y.rotate_left(16)]
}

/// Renders one row per task on a pool of `workers`.
fn render_on(workers: u32, width: usize, height: usize) -> Image<[u32; 4]> {
    let mut rows: Vec<Vec<[u32; 4]>> = (0..height).map(|_| Vec::new()).collect();
    let mut pool = Pool::new(workers);
    pool.scoped(|scoped| {
        for (y, row) in rows.iter_mut().enumerate() {
            scoped.execute(move || *row = render_row(width, y, &stamp));
        }
    });
    Image::from_rows(width, rows).unwrap()
}

fn reads_back(img: &Image<[u32; 4]>, width: usize, height: usize) {
    assert_eq!((img.width(), img.height()), (width, height));
    for y in 0..height {
        for x in 0..width {
            assert_eq!(img.get(x, y), Some(&stamp(x as u32, y as u32)));
        }
    }
    assert_eq!(img.get(width, 0), None);
    assert_eq!(img.get(0, height), None);
}

#[test]
fn rows_rendered_by_many_workers_read_back() {
    let img = render_on(16, 193, 67);
    reads_back(&img, 193, 67);
}

#[test]
fn rows_rendered_by_one_worker_read_back() {
    let img = render_on(1, 31, 17);
    reads_back(&img, 31, 17);
}

#[test]
fn rows_rendered_by_this_machine_read_back() {
    let img = render_on(worker_count(), 64, 48);
    reads_back(&img, 64, 48);
}

#[test]
fn workers_and_one_thread_render_the_same() {
    let apart = render_on(8, 50, 40);
    let whole = Image::from_fn(50, 40, stamp);
    for y in 0..40 {
        for x in 0..50 {
            assert_eq!(apart.get(x, y), whole.get(x, y));
        }
    }
}
