use dnnosaur::fields::{space, split_fields, split_lines, Span};
use dnnosaur::mnist::{payload, scale_pixels, Data, BATCH_SIZE, INPUT_SIZE, OUTPUT_SIZE};
use dnnosaur::pahdb::{assemble, dataset, pivot, record as read_record, transpose, Record};
use dnnosaur::scalar::Scalar;

/// Double-precision numbers as the engine's scalar. Outside the verifier the
/// model functions are ordinary methods; each is the operation it models.
#[derive(Clone, Copy, Debug, PartialEq)]
struct Real(f64);

impl Scalar for Real {
    fn count_spec(n: usize) -> Self {
        Self::count(n)
    }
    fn plus_spec(self, rhs: Self) -> Self {
        self.plus(rhs)
    }
    fn minus_spec(self, rhs: Self) -> Self {
        self.minus(rhs)
    }
    fn times_spec(self, rhs: Self) -> Self {
        self.times(rhs)
    }
    fn over_spec(self, rhs: Self) -> Self {
        self.over(rhs)
    }
    fn negated_spec(self) -> Self {
        self.negated()
    }
    fn magnitude_spec(self) -> Self {
        self.magnitude()
    }
    fn exp_spec(self) -> Self {
        Scalar::exp(self)
    }
    fn ln_spec(self) -> Self {
        Scalar::ln(self)
    }
    fn sqrt_spec(self) -> Self {
        Scalar::sqrt(self)
    }
    fn below_spec(self, rhs: Self) -> bool {
        self.below(rhs)
    }
    fn count(n: usize) -> Self {
        Real(n as f64)
    }
    fn plus(self, rhs: Self) -> Self {
        Real(self.0 + rhs.0)
    }
    fn minus(self, rhs: Self) -> Self {
        Real(self.0 - rhs.0)
    }
    fn times(self, rhs: Self) -> Self {
        Real(self.0 * rhs.0)
    }
    fn over(self, rhs: Self) -> Self {
        Real(self.0 / rhs.0)
    }
    fn negated(self) -> Self {
        Real(-self.0)
    }
    fn magnitude(self) -> Self {
        Real(self.0.abs())
    }
    fn exp(self) -> Self {
        Real(self.0.exp())
    }
    fn ln(self) -> Self {
        Real(self.0.ln())
    }
    fn sqrt(self) -> Self {
        Real(self.0.sqrt())
    }
    fn below(self, rhs: Self) -> bool {
        self.0 < rhs.0
    }
}

fn reals(values: &[f64]) -> Vec<Real> {
    values.iter().map(|&v| Real(v)).collect()
}

fn floats(values: &[Real]) -> Vec<f64> {
    values.iter().map(|v| v.0).collect()
}

fn record(freqs: &[f64], lxm: &[&[f64]]) -> Record<Real> {
    Record { freqs: reals(freqs), lxm: lxm.iter().map(|row| reals(row)).collect() }
}

#[test]
fn pixels_are_scaled_into_the_unit_range() {
    let got: Vec<Real> = scale_pixels(&[0, 255, 51, 128, 1]);
    assert_eq!(floats(&got), vec![0.0, 1.0, 0.2, 128.0 / 255.0, 1.0 / 255.0]);
    assert!(scale_pixels::<Real>(&[]).is_empty());
}

#[test]
fn digits_come_with_their_shape() {
    let pixels = vec![255u8; 2 * INPUT_SIZE];
    let d: Data<Real> = Data::from_pixels(&pixels, vec![3, 9], &pixels[..INPUT_SIZE], vec![7]);
    assert_eq!((d.input_size, d.output_size, d.batch_size), (784, 10, 32));
    assert_eq!((INPUT_SIZE, OUTPUT_SIZE, BATCH_SIZE), (784, 10, 32));
    assert_eq!(d.training_data.len(), 2 * 784);
    assert_eq!(d.test_images.len(), 784);
    assert!(d.training_data.iter().all(|p| p.0 == 1.0));
    assert_eq!(d.train_labels, vec![3, 9]);
    assert_eq!(d.test_labels, vec![7]);
    assert!(d.valid());
}

#[test]
fn payload_is_what_follows_the_header() {
    assert_eq!(payload(&[1, 2, 3, 4, 5], 2), &[3, 4, 5]);
    assert_eq!(payload(&[1, 2, 3], 0), &[1, 2, 3]);
    assert!(payload(&[1, 2, 3], 3).is_empty());
    assert!(payload(&[1, 2, 3], 16).is_empty());
    assert!(payload(&[], 8).is_empty());
}

#[test]
fn digits_are_read_past_the_headers() {
    let mut images = vec![9u8; 16];
    images.extend(vec![51u8; 2 * INPUT_SIZE]);
    let mut labels = vec![9u8; 8];
    labels.extend([4, 2]);
    let d: Data<Real> = Data::from_idx(&images, &labels, &images[..16 + INPUT_SIZE], &labels[..9]);
    assert_eq!(d.training_data.len(), 2 * INPUT_SIZE);
    assert!(d.training_data.iter().all(|p| p.0 == 0.2));
    assert_eq!(d.train_labels, vec![4, 2]);
    assert_eq!(d.test_images.len(), INPUT_SIZE);
    assert_eq!(d.test_labels, vec![4]);
    assert_eq!((d.input_size, d.output_size, d.batch_size), (784, 10, 32));
    assert!(d.valid());
}

#[test]
fn digits_with_a_missing_pixel_are_not_valid() {
    let pixels = vec![0u8; 2 * INPUT_SIZE - 1];
    let d: Data<Real> = Data::from_pixels(&pixels, vec![3, 9], &[], vec![]);
    assert!(!d.valid());
    let pixels = vec![0u8; INPUT_SIZE];
    let d: Data<Real> = Data::from_pixels(&pixels, vec![10], &[], vec![]);
    assert!(!d.valid());
}

#[test]
fn transpose_exchanges_rows_and_columns() {
    let v = vec![reals(&[1.0, 2.0, 3.0]), reals(&[4.0, 5.0, 6.0])];
    let t = transpose(&v);
    assert_eq!(t, vec![reals(&[1.0, 4.0]), reals(&[2.0, 5.0]), reals(&[3.0, 6.0])]);
    assert_eq!(transpose(&t), v);
    assert_eq!(transpose(&vec![reals(&[7.0])]), vec![reals(&[7.0])]);
    assert!(transpose(&vec![reals(&[])]).is_empty());
}

#[test]
fn transpose_reads_as_far_as_the_first_row() {
    let v = vec![reals(&[1.0, 2.0]), reals(&[3.0, 4.0, 5.0])];
    assert_eq!(transpose(&v), vec![reals(&[1.0, 3.0]), reals(&[2.0, 4.0])]);
}

#[test]
fn pivot_cuts_at_seven_tenths() {
    assert_eq!(pivot(20), 14);
    assert_eq!(pivot(10), 7);
    assert_eq!(pivot(3), 2);
    assert_eq!(pivot(1), 0);
    assert_eq!(pivot(0), 0);
}

#[test]
fn assemble_of_one_record() {
    let load = assemble(vec![record(&[1.0, 2.0], &[&[1.0, 2.0, 3.0], &[4.0, 5.0, 6.0]])]);
    assert_eq!((load.count, load.max_freqs, load.max_row, load.max_col), (1, 2, 2, 3));
    assert_eq!(floats(&load.freqs), vec![1.0, 2.0]);
    // exchanged: [[1, 4], [2, 5], [3, 6]]; two rows are kept, each padded to three
    assert_eq!(floats(&load.lxm), vec![1.0, 4.0, 0.0, 2.0, 5.0, 0.0]);
}

#[test]
fn assemble_of_square_matrices_pads_to_the_largest() {
    let load = assemble(vec![
        record(&[1.0], &[&[1.0, 2.0], &[3.0, 4.0]]),
        record(&[5.0, 6.0, 7.0], &[&[9.0]]),
        record(&[], &[&[1.0, 2.0, 3.0], &[4.0, 5.0, 6.0], &[7.0, 8.0, 9.0]]),
    ]);
    assert_eq!((load.count, load.max_freqs, load.max_row, load.max_col), (3, 3, 3, 3));
    assert_eq!(floats(&load.freqs), vec![1.0, 0.0, 0.0, 5.0, 6.0, 7.0, 0.0, 0.0, 0.0]);
    assert_eq!(
        floats(&load.lxm),
        vec![
            1.0, 3.0, 0.0, 2.0, 4.0, 0.0, 0.0, 0.0, 0.0, //
            9.0, 0.0, 0.0, 0.0, 0.0, 0.0, 0.0, 0.0, 0.0, //
            1.0, 4.0, 7.0, 2.0, 5.0, 8.0, 3.0, 6.0, 9.0,
        ]
    );
}

#[test]
fn assemble_of_nothing() {
    let load = assemble::<Real>(Vec::new());
    assert_eq!((load.count, load.max_freqs, load.max_row, load.max_col), (0, 0, 0, 0));
    assert!(load.freqs.is_empty());
    assert!(load.lxm.is_empty());
}

#[test]
fn dataset_takes_its_shape_from_the_training_load() {
    let train = assemble(vec![
        record(&[1.0, 2.0], &[&[1.0, 2.0], &[3.0, 4.0]]),
        record(&[3.0], &[&[5.0, 6.0], &[7.0, 8.0]]),
        record(&[4.0, 5.0], &[&[9.0]]),
    ]);
    let test = assemble(vec![record(&[6.0, 7.0], &[&[1.0, 0.0], &[0.0, 1.0]])]);
    let q = dataset(train, test);
    assert_eq!((q.input_size, q.label_size, q.output_size, q.data_size), (4, 2, 2, 3));
    assert_eq!(q.train_data.len(), 3 * 4);
    assert_eq!(floats(&q.train_labels), vec![1.0, 2.0, 3.0, 0.0, 4.0, 5.0]);
    assert_eq!(floats(&q.test_data), vec![1.0, 0.0, 0.0, 1.0]);
    assert_eq!(floats(&q.test_labels), vec![6.0, 7.0]);
    assert!(q.valid());
}

fn spans(pairs: &[(usize, usize)]) -> Vec<Span> {
    pairs.iter().map(|&(start, end)| Span { start, end }).collect()
}

/// The fields of every line of a text, as text.
fn table(text: &str) -> Vec<Vec<&str>> {
    let bytes = text.as_bytes();
    split_lines(bytes)
        .iter()
        .map(|l| {
            split_fields(bytes, l.start, l.end).iter().map(|f| &text[f.start..f.end]).collect()
        })
        .collect()
}

#[test]
fn space_is_ascii_white_space() {
    for b in 0..=255u8 {
        assert_eq!(space(b), b.is_ascii_whitespace());
    }
}

#[test]
fn lines_end_at_line_feeds() {
    assert_eq!(split_lines(b"ab\ncd"), spans(&[(0, 2), (3, 5)]));
    assert_eq!(split_lines(b"ab\ncd\n"), spans(&[(0, 2), (3, 5)]));
    assert_eq!(split_lines(b"ab\n\ncd"), spans(&[(0, 2), (3, 3), (4, 6)]));
    assert_eq!(split_lines(b"\n"), spans(&[(0, 0)]));
    assert_eq!(split_lines(b"\n\n"), spans(&[(0, 0), (1, 1)]));
    assert_eq!(split_lines(b"x"), spans(&[(0, 1)]));
    assert!(split_lines(b"").is_empty());
}

#[test]
fn lines_are_those_of_the_text() {
    for text in ["", "a", "a\n", "a\nb", "\n\na b\n \n", "1 2\r\n3 4\r\n", "\n"] {
        let got: Vec<&str> =
            split_lines(text.as_bytes()).iter().map(|l| &text[l.start..l.end]).collect();
        let want: Vec<&str> = text.split_terminator('\n').collect();
        assert_eq!(got, want);
    }
}

#[test]
fn fields_are_runs_between_white_space() {
    assert_eq!(split_fields(b"1.5 -2e3\t7", 0, 10), spans(&[(0, 3), (4, 8), (9, 10)]));
    assert_eq!(split_fields(b"  12  ", 0, 6), spans(&[(2, 4)]));
    assert_eq!(split_fields(b"a b c", 2, 5), spans(&[(2, 3), (4, 5)]));
    assert_eq!(split_fields(b"abc", 1, 2), spans(&[(1, 2)]));
    assert!(split_fields(b" \t\r\n\x0c", 0, 5).is_empty());
    assert!(split_fields(b"abc", 2, 2).is_empty());
}

#[test]
fn fields_are_those_of_the_text() {
    for text in ["", " ", "a", " a", "a ", "1 2  3\t4\r", "-1.5e-3 inf\x0cNaN", "  x\ty  "] {
        let got: Vec<&str> = split_fields(text.as_bytes(), 0, text.len())
            .iter()
            .map(|f| &text[f.start..f.end])
            .collect();
        let want: Vec<&str> = text.split_ascii_whitespace().collect();
        assert_eq!(got, want);
    }
}

#[test]
fn a_text_falls_into_lines_of_fields() {
    assert_eq!(
        table("10 20 30\n\n1 2\r\n 3 4 \n"),
        vec![vec!["10", "20", "30"], vec![], vec!["1", "2"], vec!["3", "4"]]
    );
}

#[test]
fn record_takes_targets_first_and_skips_blank_lines() {
    let lines =
        vec![reals(&[10.0, 20.0, 30.0]), vec![], reals(&[1.0, 2.0]), vec![], reals(&[3.0, 4.0])];
    let r = read_record(&lines);
    assert_eq!(floats(&r.freqs), vec![10.0, 20.0, 30.0]);
    assert_eq!(r.lxm, vec![reals(&[1.0, 2.0]), reals(&[3.0, 4.0])]);

    let r = read_record(&vec![Vec::<Real>::new(), reals(&[5.0])]);
    assert!(r.freqs.is_empty());
    assert_eq!(r.lxm, vec![reals(&[5.0])]);

    let r = read_record(&vec![reals(&[7.0])]);
    assert_eq!(floats(&r.freqs), vec![7.0]);
    assert!(r.lxm.is_empty());
}
